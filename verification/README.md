# case_scraper

Scrapes the listing of weapon cases of a skin-price site, reads every case's
own page for its skins and its knives, and stores the result in MongoDB.

- `src/` is the verified library (Verus): the data model (`structs`), text
  helpers (`text`), the trusted boundary to `scraper` (`html`), the reading of
  the overview page and of the main-page listing (`cases`, `request`), the
  reading of a case page (`case_page`), and the connection string of the TOML
  configuration (`config`).
- `app/` is the program around it: HTTP requests, tasks, the log file, the
  configuration file and the database.
- `tests/` runs the library on concrete pages and values.
