//! The settings file: the screenshot directory and how errors about it read.
use vstd::prelude::*;

use crate::paths::default_output_dir;
use crate::text::{push_str, string_from_chars};

verus! {

/// The settings.
#[derive(Debug)]
pub struct Config {
    pub output_dir: String,
}

impl Default for Config {
    /// The settings before any are saved: screenshots go to the default
    /// output directory.
    fn default() -> (config: Self)
        ensures
            config.output_dir@.len() > 0,
            crate::paths::ends_with(config.output_dir@, "Screenshots"@) || config.output_dir@ == "screenshots"@,
    {
        Config { output_dir: default_output_dir() }
    }
}

/// Why the settings could not be read or written.
#[derive(Debug)]
pub enum ConfigError {
    MissingConfigDir,
    Read { path: String, reason: String },
    Parse { path: String, reason: String },
    Write { path: String, reason: String },
    CreateDir { path: String, reason: String },
    Encode(String),
}

/// A TOML table (`toml::Table` is a map from `String` to `toml::Value`),
/// held opaquely; its contents are known through the names below.
#[verifier::external_type_specification]
#[verifier::external_body]
#[verifier::reject_recursive_types(K)]
#[verifier::reject_recursive_types(V)]
pub struct ExTomlMap<K, V>(toml::map::Map<K, V>);

/// A TOML value, held opaquely.
#[verifier::external_type_specification]
#[verifier::external_body]
pub struct ExTomlValue(toml::Value);

/// A TOML parse error, held opaquely.
#[verifier::external_type_specification]
#[verifier::external_body]
pub struct ExTomlDeError(toml::de::Error);

/// A TOML encoding error, held opaquely.
#[verifier::external_type_specification]
#[verifier::external_body]
pub struct ExTomlSerError(toml::ser::Error);

/// The keys of a TOML table.
pub uninterp spec fn toml_table_keys(table: toml::Table) -> Set<Seq<char>>;

/// The entries of a TOML table whose values are strings, with those strings.
pub uninterp spec fn toml_table_strings(table: toml::Table) -> Map<Seq<char>, Seq<char>>;

/// Every entry of a TOML table, with its value as `toml::Value`'s `Display`
/// writes it.
pub uninterp spec fn toml_table_value_texts(table: toml::Table) -> Map<Seq<char>, Seq<char>>;

/// What `toml::Value`'s `Display` writes for a string value.
pub uninterp spec fn toml_string_value_text(value: Seq<char>) -> Seq<char>;

/// `toml::Table::new`: an empty table.
#[verifier::external_body]
fn toml_table_new() -> (fresh: toml::Table)
    ensures
        toml_table_keys(fresh) =~= Set::empty(),
        toml_table_strings(fresh) =~= Map::empty(),
        toml_table_value_texts(fresh) =~= Map::empty(),
{
    toml::Table::new()
}

/// `toml::Table::insert` of a string value: the key is added, or its old
/// value replaced, and every other entry keeps its value.
#[verifier::external_body]
fn toml_table_insert_string(table: &mut toml::Table, key: String, value: String)
    ensures
        toml_table_keys(*final(table)) == toml_table_keys(*old(table)).insert(key@),
        toml_table_strings(*final(table)) == toml_table_strings(*old(table)).insert(key@, value@),
        toml_table_value_texts(*final(table)) == toml_table_value_texts(*old(table)).insert(key@, toml_string_value_text(value@)),
{
    table.insert(key, toml::Value::String(value));
}

/// What `toml::from_str` reads from a text as a table: `None` when the text
/// is not a TOML document, else the table's keys, its string entries, and
/// every entry with its value as `Display` writes it.
pub uninterp spec fn toml_parsed(text: Seq<char>) -> Option<(Set<Seq<char>>, Map<Seq<char>, Seq<char>>, Map<Seq<char>, Seq<char>>)>;

/// `toml::from_str` into a table. The result is named as a function of the
/// text; TOML's grammar itself is not restated.
#[verifier::external_body]
fn toml_parse_table(text: &str) -> (r: Result<toml::Table, toml::de::Error>)
    ensures
        match toml_parsed(text@) {
            None => r is Err,
            Some((keys, strings, texts)) => r matches Ok(table) && toml_table_keys(table) == keys && toml_table_strings(table)
                == strings && toml_table_value_texts(table) == texts,
        },
{
    toml::from_str::<toml::Table>(text)
}

/// The text `toml::to_string_pretty` writes for a table, as a function of
/// its entries with their values as `Display` writes them (the table keeps
/// its keys sorted, so their order is fixed by the entries).
pub uninterp spec fn toml_table_text(entries: Map<Seq<char>, Seq<char>>) -> Seq<char>;

/// `toml::to_string_pretty` of a table. A table is always written: the
/// call fails only on a missing value, a unit value, an integer above
/// `i64::MAX` or a top level that is not a table, and a `toml::Table` holds
/// none of these. The text is named as a function of the table's entries;
/// TOML's formatting itself is not restated.
#[verifier::external_body]
fn toml_pretty(table: &toml::Table) -> (r: Result<String, toml::ser::Error>)
    ensures
        r is Ok,
        r matches Ok(text) ==> text@ == toml_table_text(toml_table_value_texts(*table)),
{
    toml::to_string_pretty(table)
}

/// The message of a TOML parse error, as its `Display` writes it.
#[verifier::external_body]
fn toml_de_error_text(e: &toml::de::Error) -> (text: String) {
    e.to_string()
}

/// The message of a TOML encoding error, as its `Display` writes it.
#[verifier::external_body]
fn toml_ser_error_text(e: &toml::ser::Error) -> (text: String) {
    e.to_string()
}

/// The entries of a settings table after `output_dir` is set in `entries`.
pub open spec fn with_output_dir_entry(entries: Map<Seq<char>, Seq<char>>, output_dir: Seq<char>) -> Map<Seq<char>, Seq<char>> {
    entries.insert("output_dir"@, toml_string_value_text(output_dir))
}

/// The text of a settings file that holds only `output_dir`.
pub open spec fn settings_text(output_dir: Seq<char>) -> Seq<char> {
    toml_table_text(with_output_dir_entry(Map::<Seq<char>, Seq<char>>::empty(), output_dir))
}

/// The settings table with `output_dir` set to `output_dir`: every other
/// key stays, with its value.
pub fn with_output_dir(table: toml::Table, output_dir: &str) -> (updated: toml::Table)
    ensures
        toml_table_keys(updated) == toml_table_keys(table).insert("output_dir"@),
        toml_table_strings(updated) == toml_table_strings(table).insert("output_dir"@, output_dir@),
        toml_table_value_texts(updated) == with_output_dir_entry(toml_table_value_texts(table), output_dir@),
{
    let mut updated = table;
    toml_table_insert_string(&mut updated, "output_dir".to_owned(), output_dir.to_owned());
    updated
}

impl Config {
    /// The settings as TOML text: the single key `output_dir`.
    pub fn to_toml(&self) -> (r: Result<String, ConfigError>)
        ensures
            r is Ok,
            r matches Ok(text) ==> text@ == settings_text(self.output_dir@),
    {
        let table = with_output_dir(toml_table_new(), self.output_dir.as_str());
        proof {
            assert(toml_table_value_texts(table) =~= with_output_dir_entry(Map::<Seq<char>, Seq<char>>::empty(), self.output_dir@));
        }
        match toml_pretty(&table) {
            Ok(text) => Ok(text),
            Err(e) => Err(ConfigError::Encode(toml_ser_error_text(&e))),
        }
    }
}

/// The text to write to the settings file at `path`, given what the file
/// holds now (`None` when there is no file): the existing table with
/// `output_dir` set, so that other settings survive.
pub fn config_toml_for_write(config: &Config, path: &str, existing: Option<&str>) -> (r: Result<String, ConfigError>)
    ensures
        existing is None ==> (r matches Ok(text) && text@ == settings_text(config.output_dir@)),
        existing matches Some(old_text) ==> (toml_parsed(old_text@) is Some ==> r is Ok),
        existing matches Some(old_text) ==> (toml_parsed(old_text@) is None <==> r matches Err(ConfigError::Parse { .. })),
        existing matches Some(old_text) ==> match toml_parsed(old_text@) {
            Some((_, _, entries)) => r matches Ok(text) ==> text@ == toml_table_text(
                with_output_dir_entry(entries, config.output_dir@),
            ),
            None => true,
        },
        r matches Err(e) ==> (e matches ConfigError::Parse { path: p, .. } && existing is Some && p@ == path@),
{
    let table = match existing {
        Some(text) => match toml_parse_table(text) {
            Ok(table) => table,
            Err(e) => {
                return Err(ConfigError::Parse { path: path.to_owned(), reason: toml_de_error_text(&e) });
            },
        },
        None => toml_table_new(),
    };
    let ghost fresh = existing is None;
    let updated = with_output_dir(table, config.output_dir.as_str());
    proof {
        if fresh {
            assert(toml_table_value_texts(updated) =~= with_output_dir_entry(Map::<Seq<char>, Seq<char>>::empty(), config.output_dir@));
        }
    }
    match toml_pretty(&updated) {
        Ok(text) => Ok(text),
        Err(e) => Err(ConfigError::Encode(toml_ser_error_text(&e))),
    }
}

/// The text shown for the error.
pub open spec fn config_error_text(e: ConfigError) -> Seq<char> {
    match e {
        ConfigError::MissingConfigDir => "could not determine the user config directory"@,
        ConfigError::Read { path, reason } => "failed to read "@ + path@ + ": "@ + reason@,
        ConfigError::Parse { path, reason } => "failed to parse "@ + path@ + ": "@ + reason@,
        ConfigError::Write { path, reason } => "failed to write "@ + path@ + ": "@ + reason@,
        ConfigError::CreateDir { path, reason } => "failed to create "@ + path@ + ": "@ + reason@,
        ConfigError::Encode(reason) => "failed to encode config: "@ + reason@,
    }
}

impl ConfigError {
    /// The text shown for the error.
    pub fn message(&self) -> (s: String)
        ensures
            s@ == config_error_text(*self),
    {
        let mut out: Vec<char> = Vec::new();
        match self {
            ConfigError::MissingConfigDir => push_str(&mut out, "could not determine the user config directory"),
            ConfigError::Read { path, reason } => {
                push_str(&mut out, "failed to read ");
                push_str(&mut out, path.as_str());
                push_str(&mut out, ": ");
                push_str(&mut out, reason.as_str());
            },
            ConfigError::Parse { path, reason } => {
                push_str(&mut out, "failed to parse ");
                push_str(&mut out, path.as_str());
                push_str(&mut out, ": ");
                push_str(&mut out, reason.as_str());
            },
            ConfigError::Write { path, reason } => {
                push_str(&mut out, "failed to write ");
                push_str(&mut out, path.as_str());
                push_str(&mut out, ": ");
                push_str(&mut out, reason.as_str());
            },
            ConfigError::CreateDir { path, reason } => {
                push_str(&mut out, "failed to create ");
                push_str(&mut out, path.as_str());
                push_str(&mut out, ": ");
                push_str(&mut out, reason.as_str());
            },
            ConfigError::Encode(reason) => {
                push_str(&mut out, "failed to encode config: ");
                push_str(&mut out, reason.as_str());
            },
        }
        string_from_chars(&out)
    }
}

} // verus!
