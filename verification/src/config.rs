//! The profile configuration: one table of a TOML document per profile, read
//! once at startup and not changed afterwards.

use crate::naming::{archive_extension, derive_name, remote_name, sidecar_extension};
use vstd::prelude::*;
use vstd::string::*;

verus! {

/// Declares `toml::Value`, a parsed TOML value, which is carried through as it is.
#[verifier::external_type_specification]
#[verifier::external_body]
pub struct ExTomlValue(toml::Value);

/// Declares `toml::de::Error`, the parser's error, which is carried through as it is.
#[verifier::external_type_specification]
#[verifier::external_body]
pub struct ExTomlError(toml::de::Error);

/// The contents of a TOML value, as far as a configuration is read from
/// them: a string, a table of values by key, or a value of any other kind.
pub enum Toml {
    Text(Seq<char>),
    Table(Map<Seq<char>, Toml>),
    Other,
}

/// The contents of a `toml::Value`: for a string its text, for a table the
/// contents of its entries under their keys.
pub uninterp spec fn toml_value(v: toml::Value) -> Toml;

/// What `toml::from_str` makes of a text: the document's table, or nothing
/// where the text is no TOML document.
pub uninterp spec fn toml_parse(text: Seq<char>) -> Option<Toml>;

/// Calls `toml::from_str` for a `toml::Value`. The outcome depends on the
/// text alone: the parsed document, or the parser's error.
#[verifier::external_body]
fn parse_document(text: &str) -> (r: Result<toml::Value, toml::de::Error>)
    ensures
        match r {
            Ok(v) => toml_parse(text@) == Some(toml_value(v)),
            Err(_) => toml_parse(text@) is None,
        },
{
    toml::from_str::<toml::Value>(text)
}

/// Calls `toml::Value::get` with a string index: the entry of a table under
/// that key; nothing where the key is absent or the value is no table.
#[verifier::external_body]
fn value_get<'a>(v: &'a toml::Value, key: &str) -> (r: Option<&'a toml::Value>)
    ensures
        match r {
            Some(x) => entry(toml_value(*v), key@) == Some(toml_value(*x)),
            None => entry(toml_value(*v), key@) is None,
        },
{
    v.get(key)
}

/// Calls `toml::Value::as_str`: the text of a string value, nothing for any
/// other value.
#[verifier::external_body]
fn value_as_str<'a>(v: &'a toml::Value) -> (r: Option<&'a str>)
    ensures
        match r {
            Some(s) => text_of(toml_value(*v)) == Some(s@),
            None => text_of(toml_value(*v)) is None,
        },
{
    v.as_str()
}

/// The entry of a table under `key`.
pub open spec fn entry(t: Toml, key: Seq<char>) -> Option<Toml> {
    match t {
        Toml::Table(m) => if m.contains_key(key) {
            Some(m[key])
        } else {
            None
        },
        _ => None,
    }
}

/// The text of a string value.
pub open spec fn text_of(t: Toml) -> Option<Seq<char>> {
    match t {
        Toml::Text(s) => Some(s),
        _ => None,
    }
}

/// A key of a profile's table.
#[derive(Clone, Copy, Debug, PartialEq, Eq, Structural)]
pub enum Key {
    Folder,
    SshAddress,
    GpgId,
    TempFolder,
    GpgProgram,
}

impl Key {
    /// The key as the file spells it.
    pub open spec fn spelling(self) -> Seq<char> {
        match self {
            Key::Folder => "folder"@,
            Key::SshAddress => "ssh_address"@,
            Key::GpgId => "gpg_id"@,
            Key::TempFolder => "temp_folder"@,
            Key::GpgProgram => "gpg_program"@,
        }
    }

    /// The key as the file spells it.
    pub fn name(self) -> (r: &'static str)
        ensures
            r@ == self.spelling(),
    {
        match self {
            Key::Folder => "folder",
            Key::SshAddress => "ssh_address",
            Key::GpgId => "gpg_id",
            Key::TempFolder => "temp_folder",
            Key::GpgProgram => "gpg_program",
        }
    }
}

/// Why a configuration could not be loaded.
#[derive(Clone, Copy, Debug, PartialEq, Eq, Structural)]
pub enum ConfigError {
    /// The text is no TOML document.
    Syntax,
    /// The document has no entry for the profile.
    UnknownProfile,
    /// The profile lacks a required key.
    MissingKey(Key),
    /// The value under a key is no string.
    WrongType(Key),
    /// The staging directory's path has no last component to name the remote
    /// files after.
    UnnamedTempFolder,
}

/// The settings of one profile.
#[derive(Clone, Debug, PartialEq, Eq)]
pub struct Config {
    /// The local directory that is kept in sync.
    pub dir: String,
    /// The remote endpoint, as `user@host`.
    pub sshaddr: String,
    /// The staging directory a reconcile run unpacks the remote archive into.
    pub temp: String,
    /// The recipient the archive is encrypted for.
    pub gpg_id: String,
    /// Name of the remote archive.
    pub tar: String,
    /// Name of the remote hash sidecar.
    pub tar_hash: String,
    /// Path of another crypto engine to use, if any.
    pub gpg_bin: Option<String>,
    /// Whether to encrypt with a passphrase instead of the recipient's key.
    pub symmetric: bool,
}

/// A `Config` as contracts speak of it.
pub struct ConfigView {
    pub dir: Seq<char>,
    pub sshaddr: Seq<char>,
    pub temp: Seq<char>,
    pub gpg_id: Seq<char>,
    pub tar: Seq<char>,
    pub tar_hash: Seq<char>,
    pub gpg_bin: Option<Seq<char>>,
    pub symmetric: bool,
}

impl View for Config {
    type V = ConfigView;

    open spec fn view(&self) -> ConfigView {
        ConfigView {
            dir: self.dir@,
            sshaddr: self.sshaddr@,
            temp: self.temp@,
            gpg_id: self.gpg_id@,
            tar: self.tar@,
            tar_hash: self.tar_hash@,
            gpg_bin: optional_text(self.gpg_bin),
            symmetric: self.symmetric,
        }
    }
}

/// The text of a string that may be absent.
pub open spec fn optional_text(s: Option<String>) -> Option<Seq<char>> {
    match s {
        Some(t) => Some(t@),
        None => None,
    }
}

impl ConfigView {
    /// The remote files are named after the staging directory.
    pub open spec fn well_named(self) -> bool {
        &&& remote_name(self.temp, archive_extension()) == Some(self.tar)
        &&& remote_name(self.temp, sidecar_extension()) == Some(self.tar_hash)
    }
}

/// Whether a profile's table holds an entry under `key`.
pub open spec fn holds(table: Toml, key: Key) -> bool {
    entry(table, key.spelling()) is Some
}

/// Whether the entry under `key` is a string.
pub open spec fn is_text(table: Toml, key: Key) -> bool {
    entry(table, key.spelling()) matches Some(v) && text_of(v) is Some
}

/// The string under `key`.
pub open spec fn text_at(table: Toml, key: Key) -> Seq<char> {
    text_of(entry(table, key.spelling())->0)->0
}

/// The first required key that a profile's table lacks.
pub open spec fn first_missing(table: Toml) -> Option<Key> {
    if !holds(table, Key::Folder) {
        Some(Key::Folder)
    } else if !holds(table, Key::SshAddress) {
        Some(Key::SshAddress)
    } else if !holds(table, Key::GpgId) {
        Some(Key::GpgId)
    } else if !holds(table, Key::TempFolder) {
        Some(Key::TempFolder)
    } else {
        None
    }
}

/// The first key, among those present, whose value is no string. The
/// optional key comes last.
pub open spec fn first_mistyped(table: Toml) -> Option<Key> {
    if !is_text(table, Key::Folder) {
        Some(Key::Folder)
    } else if !is_text(table, Key::SshAddress) {
        Some(Key::SshAddress)
    } else if !is_text(table, Key::GpgId) {
        Some(Key::GpgId)
    } else if !is_text(table, Key::TempFolder) {
        Some(Key::TempFolder)
    } else if holds(table, Key::GpgProgram) && !is_text(table, Key::GpgProgram) {
        Some(Key::GpgProgram)
    } else {
        None
    }
}

/// The configuration that a document gives for a profile. A missing key is
/// reported before a value of the wrong type, each in the file's order of
/// keys; the names of the remote files are derived last.
pub open spec fn profile_config(doc: Toml, profile: Seq<char>) -> Result<ConfigView, ConfigError> {
    match entry(doc, profile) {
        None => Err(ConfigError::UnknownProfile),
        Some(table) => if first_missing(table) is Some {
            Err(ConfigError::MissingKey(first_missing(table)->0))
        } else if first_mistyped(table) is Some {
            Err(ConfigError::WrongType(first_mistyped(table)->0))
        } else {
            let temp = text_at(table, Key::TempFolder);
            if final_named(temp) {
                Ok(
                    ConfigView {
                        dir: text_at(table, Key::Folder),
                        sshaddr: text_at(table, Key::SshAddress),
                        temp: temp,
                        gpg_id: text_at(table, Key::GpgId),
                        tar: remote_name(temp, archive_extension())->0,
                        tar_hash: remote_name(temp, sidecar_extension())->0,
                        gpg_bin: if holds(table, Key::GpgProgram) {
                            Some(text_at(table, Key::GpgProgram))
                        } else {
                            None
                        },
                        symmetric: false,
                    },
                )
            } else {
                Err(ConfigError::UnnamedTempFolder)
            }
        },
    }
}

/// Whether a staging path has a last component to name the remote files after.
pub open spec fn final_named(temp: Seq<char>) -> bool {
    remote_name(temp, archive_extension()) is Some
}

/// The configuration that a text gives for a profile.
pub open spec fn text_config(text: Seq<char>, profile: Seq<char>) -> Result<
    ConfigView,
    ConfigError,
> {
    match toml_parse(text) {
        None => Err(ConfigError::Syntax),
        Some(doc) => profile_config(doc, profile),
    }
}

/// A result of loading as contracts speak of it.
pub open spec fn loaded(r: Result<Config, ConfigError>) -> Result<ConfigView, ConfigError> {
    match r {
        Ok(c) => Ok(c@),
        Err(e) => Err(e),
    }
}

/// Reads the string under a key that the table is known to hold.
fn required(table: &toml::Value, key: Key) -> (r: Option<String>)
    ensures
        match r {
            Some(s) => is_text(toml_value(*table), key) && s@ == text_at(toml_value(*table), key),
            None => !is_text(toml_value(*table), key),
        },
{
    match value_get(table, key.name()) {
        None => None,
        Some(v) => match value_as_str(v) {
            None => None,
            Some(s) => Some(String::from_str(s)),
        },
    }
}

/// Whether the table holds an entry under a key.
fn present(table: &toml::Value, key: Key) -> (r: bool)
    ensures
        r == holds(toml_value(*table), key),
{
    value_get(table, key.name()).is_some()
}

/// Builds the configuration of `profile` from a parsed document.
pub fn config_from_value(values: &toml::Value, profile: &str) -> (r: Result<Config, ConfigError>)
    ensures
        loaded(r) == profile_config(toml_value(*values), profile@),
        r matches Ok(c) ==> c@.well_named(),
{
    let table = match value_get(values, profile) {
        None => {
            return Err(ConfigError::UnknownProfile);
        },
        Some(t) => t,
    };
    if !present(table, Key::Folder) {
        return Err(ConfigError::MissingKey(Key::Folder));
    }
    if !present(table, Key::SshAddress) {
        return Err(ConfigError::MissingKey(Key::SshAddress));
    }
    if !present(table, Key::GpgId) {
        return Err(ConfigError::MissingKey(Key::GpgId));
    }
    if !present(table, Key::TempFolder) {
        return Err(ConfigError::MissingKey(Key::TempFolder));
    }
    let dir = match required(table, Key::Folder) {
        None => {
            return Err(ConfigError::WrongType(Key::Folder));
        },
        Some(s) => s,
    };
    let sshaddr = match required(table, Key::SshAddress) {
        None => {
            return Err(ConfigError::WrongType(Key::SshAddress));
        },
        Some(s) => s,
    };
    let gpg_id = match required(table, Key::GpgId) {
        None => {
            return Err(ConfigError::WrongType(Key::GpgId));
        },
        Some(s) => s,
    };
    let temp = match required(table, Key::TempFolder) {
        None => {
            return Err(ConfigError::WrongType(Key::TempFolder));
        },
        Some(s) => s,
    };
    let gpg_bin = if present(table, Key::GpgProgram) {
        match required(table, Key::GpgProgram) {
            None => {
                return Err(ConfigError::WrongType(Key::GpgProgram));
            },
            Some(s) => Some(s),
        }
    } else {
        None
    };
    let tar = match derive_name(temp.as_str(), "tar.gz.gpg") {
        None => {
            return Err(ConfigError::UnnamedTempFolder);
        },
        Some(s) => s,
    };
    let tar_hash = match derive_name(temp.as_str(), "gpg.xxhash") {
        None => {
            return Err(ConfigError::UnnamedTempFolder);
        },
        Some(s) => s,
    };
    Ok(Config { dir, sshaddr, temp, gpg_id, tar, tar_hash, gpg_bin, symmetric: false })
}

/// Loads the configuration of `profile` from the text of a configuration
/// file.
pub fn load_configuration(text: &str, profile: &str) -> (r: Result<Config, ConfigError>)
    ensures
        loaded(r) == text_config(text@, profile@),
        r matches Ok(c) ==> c@.well_named(),
{
    match parse_document(text) {
        Err(_) => Err(ConfigError::Syntax),
        Ok(values) => config_from_value(&values, profile),
    }
}

} // verus!
