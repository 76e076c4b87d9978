//! Scraping of weapon-case listings: the data model of cases and their
//! skins, the rules that turn scraped page fragments into that model, and
//! the reading of the database configuration.

pub mod text;
pub mod structs;
pub mod html;
pub mod request;
pub mod cases;
pub mod case_page;
pub mod config;
