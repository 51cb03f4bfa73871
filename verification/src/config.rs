//! The configuration of a run: the token for the movie database and the
//! credentials of the relational store, read from TOML text.
//!
//! The TOML grammar is `toml`'s: this module parses with it and looks the
//! entries up through its accessors. Which text is a document, and what a
//! parsed table holds, is known here only by name; which entries a
//! configuration needs, and that each must be a text, is decided and
//! verified here.

use vstd::prelude::*;
use vstd::string::StringExecFns;

verus! {

/// `toml::map::Map`, the entries of a TOML table by their keys.
#[verifier::external_type_specification]
#[verifier::external_body]
#[verifier::reject_recursive_types(K)]
#[verifier::reject_recursive_types(V)]
pub struct ExTomlMap<K, V>(toml::map::Map<K, V>);

/// `toml::Value`, the value of one entry.
#[verifier::external_type_specification]
#[verifier::external_body]
pub struct ExTomlValue(toml::Value);

/// `toml::de::Error`, the reason why a text is no TOML document.
#[verifier::external_type_specification]
#[verifier::external_body]
pub struct ExTomlError(toml::de::Error);

/// What a TOML value holds. Of a number that is no integer and of a date
/// and time nothing more is kept.
pub enum TomlView {
    Text(Seq<char>),
    Integer(int),
    Real,
    Boolean(bool),
    Datetime,
    Array(Seq<TomlView>),
    Table(Map<Seq<char>, TomlView>),
}

/// The entries that `toml::from_str` reads from `text`, if `text` is a TOML
/// document.
pub uninterp spec fn toml_document(text: Seq<char>) -> Option<Map<Seq<char>, TomlView>>;

/// The entries that a `toml::Table` holds.
pub uninterp spec fn toml_entries(table: toml::Table) -> Map<Seq<char>, TomlView>;

/// What a `toml::Value` holds.
pub uninterp spec fn toml_view(value: toml::Value) -> TomlView;

/// `toml::from_str` at `toml::Table`: believed to depend on the text alone.
#[verifier::external_body]
fn parse_table(text: &str) -> (r: Result<toml::Table, toml::de::Error>)
    ensures
        match r {
            Ok(table) => toml_document(text@) == Some(toml_entries(table)),
            Err(_) => toml_document(text@) is None,
        },
{
    toml::from_str::<toml::Table>(text)
}

/// `toml::map::Map::get` with a text key: the value of the entry of that
/// name, where the table has one.
#[verifier::external_body]
fn table_entry<'a>(table: &'a toml::Table, key: &str) -> (r: Option<&'a toml::Value>)
    ensures
        match r {
            Some(found) => toml_entries(*table).dom().contains(key@) && toml_entries(*table)[key@]
                == toml_view(*found),
            None => !toml_entries(*table).dom().contains(key@),
        },
{
    table.get(key)
}

/// `toml::Value::as_str`: the text that the value holds, where it is a
/// string.
pub assume_specification<'a>[ toml::Value::as_str ](value: &'a toml::Value) -> (r: Option<&'a str>)
    ensures
        match r {
            Some(text) => toml_view(*value) == TomlView::Text(text@),
            None => !(toml_view(*value) is Text),
        },
;

/// The settings of one run.
#[derive(Debug, PartialEq, Eq)]
pub struct Config {
    pub token: String,
    pub postgres_host: String,
    pub postgres_user: String,
    pub postgres_password: String,
}

/// Mathematical model of [`Config`].
pub struct ConfigView {
    pub token: Seq<char>,
    pub postgres_host: Seq<char>,
    pub postgres_user: Seq<char>,
    pub postgres_password: Seq<char>,
}

impl View for Config {
    type V = ConfigView;

    open spec fn view(&self) -> ConfigView {
        ConfigView {
            token: self.token@,
            postgres_host: self.postgres_host@,
            postgres_user: self.postgres_user@,
            postgres_password: self.postgres_password@,
        }
    }
}

/// The entries of a configuration, in the order in which they are looked up.
#[derive(Debug, Clone, Copy, PartialEq, Eq, Structural)]
pub enum ConfigField {
    Token,
    PostgresHost,
    PostgresUser,
    PostgresPassword,
}

/// Why a text is no configuration.
#[derive(Debug, Clone, Copy, PartialEq, Eq, Structural)]
pub enum ConfigError {
    /// The text is not a TOML document.
    Malformed,
    /// The document has no such entry, or the entry is not a text. Of
    /// several such entries the first is named.
    Field(ConfigField),
}

/// The text entry `key` among `entries`.
pub open spec fn entry_str(entries: Map<Seq<char>, TomlView>, key: Seq<char>) -> Option<Seq<char>> {
    if entries.dom().contains(key) {
        match entries[key] {
            TomlView::Text(text) => Some(text),
            _ => None,
        }
    } else {
        None
    }
}

/// The configuration that `entries` hold: the four entries of its names,
/// each a text. Other entries are not looked at.
pub open spec fn config_of_entries(entries: Map<Seq<char>, TomlView>) -> Result<
    ConfigView,
    ConfigError,
> {
    if entry_str(entries, "token"@) is None {
        Err(ConfigError::Field(ConfigField::Token))
    } else if entry_str(entries, "postgres_host"@) is None {
        Err(ConfigError::Field(ConfigField::PostgresHost))
    } else if entry_str(entries, "postgres_user"@) is None {
        Err(ConfigError::Field(ConfigField::PostgresUser))
    } else if entry_str(entries, "postgres_password"@) is None {
        Err(ConfigError::Field(ConfigField::PostgresPassword))
    } else {
        Ok(
            ConfigView {
                token: entry_str(entries, "token"@)->0,
                postgres_host: entry_str(entries, "postgres_host"@)->0,
                postgres_user: entry_str(entries, "postgres_user"@)->0,
                postgres_password: entry_str(entries, "postgres_password"@)->0,
            },
        )
    }
}

/// The configuration that `text` holds.
pub open spec fn config_of(text: Seq<char>) -> Result<ConfigView, ConfigError> {
    match toml_document(text) {
        Some(entries) => config_of_entries(entries),
        None => Err(ConfigError::Malformed),
    }
}

/// The parameters with which the store is connected to: host, user and
/// password, each after its keyword and an equals sign, with one space
/// between them.
pub open spec fn connection_string_of(config: ConfigView) -> Seq<char> {
    "host="@ + config.postgres_host + " user="@ + config.postgres_user + " password="@
        + config.postgres_password
}

fn read_entry(table: &toml::Table, key: &str) -> (r: Option<String>)
    ensures
        match r {
            Some(text) => entry_str(toml_entries(*table), key@) == Some(text@),
            None => entry_str(toml_entries(*table), key@) is None,
        },
{
    match table_entry(table, key) {
        Some(found) => match found.as_str() {
            Some(text) => Some(text.to_owned()),
            None => None,
        },
        None => None,
    }
}

impl Config {
    /// Reads a configuration out of a parsed TOML document.
    pub fn from_table(table: &toml::Table) -> (r: Result<Config, ConfigError>)
        ensures
            match r {
                Ok(config) => config_of_entries(toml_entries(*table)) == Ok::<
                    ConfigView,
                    ConfigError,
                >(config@),
                Err(e) => config_of_entries(toml_entries(*table)) == Err::<ConfigView, ConfigError>(
                    e,
                ),
            },
    {
        let token = match read_entry(table, "token") {
            Some(text) => text,
            None => { return Err(ConfigError::Field(ConfigField::Token)); },
        };
        let postgres_host = match read_entry(table, "postgres_host") {
            Some(text) => text,
            None => { return Err(ConfigError::Field(ConfigField::PostgresHost)); },
        };
        let postgres_user = match read_entry(table, "postgres_user") {
            Some(text) => text,
            None => { return Err(ConfigError::Field(ConfigField::PostgresUser)); },
        };
        let postgres_password = match read_entry(table, "postgres_password") {
            Some(text) => text,
            None => { return Err(ConfigError::Field(ConfigField::PostgresPassword)); },
        };
        Ok(Config { token, postgres_host, postgres_user, postgres_password })
    }

    /// Reads a configuration out of TOML text.
    pub fn parse(text: &str) -> (r: Result<Config, ConfigError>)
        ensures
            match r {
                Ok(config) => config_of(text@) == Ok::<ConfigView, ConfigError>(config@),
                Err(e) => config_of(text@) == Err::<ConfigView, ConfigError>(e),
            },
    {
        match parse_table(text) {
            Ok(table) => Config::from_table(&table),
            Err(_) => Err(ConfigError::Malformed),
        }
    }

    /// The parameters with which the store is connected to.
    pub fn connection_string(&self) -> (r: String)
        ensures
            r@ == connection_string_of(self@),
    {
        let mut r = String::from_str("host=");
        r.append(self.postgres_host.as_str());
        r.append(" user=");
        r.append(self.postgres_user.as_str());
        r.append(" password=");
        r.append(self.postgres_password.as_str());
        r
    }
}

} // verus!
