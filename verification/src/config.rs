//! Reading the database connection string from a TOML configuration.
//!
//! Parsing TOML is done by the `toml` crate. A value of a parsed document is
//! identified by the keys that lead to it from the top-level table; what
//! `toml` answers about a value is a function of the document's text and
//! those keys alone, and the names below stand for those answers.

use vstd::prelude::*;
use crate::structs::opt_text;

verus! {

#[verifier::external_type_specification]
#[verifier::external_body]
#[verifier::reject_recursive_types(K)]
#[verifier::reject_recursive_types(V)]
pub struct ExTomlMap<K, V>(toml::map::Map<K, V>);

#[verifier::external_type_specification]
#[verifier::external_body]
pub struct ExTomlValue(toml::Value);

/// Whether `toml::Table`'s `FromStr` accepts the text as a TOML document.
pub uninterp spec fn toml_document_parses(text: Seq<char>) -> bool;

/// Whether `toml::map::Map::get` finds `key` in the table that `path` leads
/// to in the document parsed from `text`.
pub uninterp spec fn toml_has_key(text: Seq<char>, path: Seq<Seq<char>>, key: Seq<char>) -> bool;

/// Whether `toml::Value::as_table` finds a table at the value that `path`
/// leads to.
pub uninterp spec fn toml_is_table(text: Seq<char>, path: Seq<Seq<char>>) -> bool;

/// The string that `toml::Value::as_str` finds at the value that `path` leads
/// to, if that value is a string.
pub uninterp spec fn toml_string_at(text: Seq<char>, path: Seq<Seq<char>>) -> Option<Seq<char>>;

/// A parsed TOML document, with the text it was parsed from.
pub(crate) struct ConfigDocument {
    table: toml::Table,
    source: Ghost<Seq<char>>,
}

/// A table of a parsed document, with the keys that lead to it.
pub(crate) struct ConfigTable<'a> {
    table: &'a toml::Table,
    source: Ghost<Seq<char>>,
    path: Ghost<Seq<Seq<char>>>,
}

/// A value of a parsed document, with the keys that lead to it.
pub(crate) struct ConfigValue<'a> {
    value: &'a toml::Value,
    source: Ghost<Seq<char>>,
    path: Ghost<Seq<Seq<char>>>,
}

impl ConfigDocument {
    pub(crate) closed spec fn source(&self) -> Seq<char> {
        self.source@
    }

    /// Parses a TOML document into its top-level table with `FromStr` of
    /// `toml::Table`; `None` where `toml` reports an error.
    #[verifier::external_body]
    pub(crate) fn parse(text: &str) -> (d: Option<ConfigDocument>)
        ensures
            d.is_some() == toml_document_parses(text@),
            d matches Some(d) ==> d.source() == text@,
    {
        match text.parse::<toml::Table>() {
            Ok(table) => Some(ConfigDocument { table, source: Ghost(text@) }),
            Err(_) => None,
        }
    }

    /// The top-level table of the document.
    pub(crate) fn root(&self) -> (t: ConfigTable<'_>)
        ensures
            t.source() == self.source(),
            t.path() == Seq::<Seq<char>>::empty(),
    {
        ConfigTable { table: &self.table, source: Ghost(self.source@), path: Ghost(Seq::empty()) }
    }
}

impl<'a> ConfigTable<'a> {
    pub(crate) closed spec fn source(&self) -> Seq<char> {
        self.source@
    }

    pub(crate) closed spec fn path(&self) -> Seq<Seq<char>> {
        self.path@
    }

    /// The value stored under `key`, by `toml::map::Map::get`.
    #[verifier::external_body]
    pub(crate) fn get(&self, key: &str) -> (v: Option<ConfigValue<'a>>)
        ensures
            v.is_some() == toml_has_key(self.source(), self.path(), key@),
            v matches Some(v) ==> v.source() == self.source() && v.path() == self.path().push(
                key@,
            ),
    {
        self.table.get(key).map(
            |value| ConfigValue { value, source: Ghost(self.source@), path: Ghost(self.path@.push(key@)) },
        )
    }
}

impl<'a> ConfigValue<'a> {
    pub(crate) closed spec fn source(&self) -> Seq<char> {
        self.source@
    }

    pub(crate) closed spec fn path(&self) -> Seq<Seq<char>> {
        self.path@
    }

    /// The value as a table, by `toml::Value::as_table`; `None` where it is
    /// not a table.
    #[verifier::external_body]
    pub(crate) fn as_table(&self) -> (t: Option<ConfigTable<'a>>)
        ensures
            t.is_some() == toml_is_table(self.source(), self.path()),
            t matches Some(t) ==> t.source() == self.source() && t.path() == self.path(),
    {
        self.value.as_table().map(
            |table| ConfigTable { table, source: Ghost(self.source@), path: Ghost(self.path@) },
        )
    }

    /// The value as a string, by `toml::Value::as_str`; `None` where it is not
    /// a string.
    #[verifier::external_body]
    pub(crate) fn as_str(&self) -> (s: Option<String>)
        ensures
            opt_text(s) == toml_string_at(self.source(), self.path()),
    {
        self.value.as_str().map(|s| s.to_string())
    }
}

/// The keys that lead to the connection table.
pub open spec fn connection_path() -> Seq<Seq<char>> {
    seq!["connection"@]
}

/// The keys that lead to the connection string.
pub open spec fn connection_string_path() -> Seq<Seq<char>> {
    seq!["connection"@, "connectionstring"@]
}

/// The document parsed from `text` has a table `connection` with a key
/// `connectionstring`.
pub open spec fn has_connection_entry(text: Seq<char>) -> bool {
    &&& toml_has_key(text, Seq::empty(), "connection"@)
    &&& toml_is_table(text, connection_path())
    &&& toml_has_key(text, connection_path(), "connectionstring"@)
}

/// The configuration text can be read: it is a TOML document, and where it
/// has a `connection.connectionstring` entry, that entry is a string.
pub open spec fn config_readable(text: Seq<char>) -> bool {
    &&& toml_document_parses(text)
    &&& has_connection_entry(text) ==> toml_string_at(text, connection_string_path()) is Some
}

/// The connection string that a readable configuration text gives: the
/// `connection.connectionstring` entry, or empty where there is none.
pub open spec fn connection_string_of(text: Seq<char>) -> Seq<char> {
    if has_connection_entry(text) {
        toml_string_at(text, connection_string_path()).unwrap()
    } else {
        Seq::empty()
    }
}

/// The database connection string of a TOML configuration: the string under
/// `connectionstring` in the table `connection`, or the empty string where
/// there is no such entry. `None` where the text is not a TOML document or the
/// entry is not a string.
pub fn connection_string(contents: &str) -> (r: Option<String>)
    ensures
        r.is_some() == config_readable(contents@),
        r matches Some(s) ==> s@ == connection_string_of(contents@),
{
    let mut connection = String::new();
    let document = match ConfigDocument::parse(contents) {
        Some(d) => d,
        None => return None,
    };
    let root = document.root();
    if let Some(entry) = root.get("connection") {
        assert(entry.path() =~= connection_path());
        if let Some(table) = entry.as_table() {
            if let Some(value) = table.get("connectionstring") {
                assert(value.path() =~= connection_string_path());
                match value.as_str() {
                    Some(s) => connection.append(s.as_str()),
                    None => return None,
                }
            }
        }
    }
    Some(connection)
}


/// The connection string is the string at `connection.connectionstring`
/// where `connection` is a table holding that key, and empty otherwise; a
/// configuration can be read exactly when it is a TOML document whose entry,
/// where it exists, is a string.
pub proof fn law_connection_string(text: Seq<char>)
    ensures
        ({
            let entry = toml_has_key(text, Seq::empty(), "connection"@) && toml_is_table(
                text,
                Seq::empty().push("connection"@),
            ) && toml_has_key(text, Seq::empty().push("connection"@), "connectionstring"@);
            let at = Seq::empty().push("connection"@).push("connectionstring"@);
            &&& connection_string_of(text) == (if entry {
                toml_string_at(text, at).unwrap()
            } else {
                Seq::<char>::empty()
            })
            &&& config_readable(text) == (toml_document_parses(text) && (entry ==> toml_string_at(
                text,
                at,
            ) is Some))
        }),
{
    assert(Seq::<Seq<char>>::empty().push("connection"@) =~= connection_path());
    assert(Seq::<Seq<char>>::empty().push("connection"@).push("connectionstring"@)
        =~= connection_string_path());
}

} // verus!
