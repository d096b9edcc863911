use mist::config::{config_from_value, load_configuration, Config, ConfigError, Key};

const FULL: &str = r#"
[work]
folder = "/home/me/work"
ssh_address = "me@example.org"
gpg_id = "me@example.org"
temp_folder = "/tmp/work-stage"

[home]
folder = "/home/me/private"
ssh_address = "me@backup"
gpg_id = "0xDEADBEEF"
temp_folder = "/tmp/private.d/"
gpg_program = "/usr/bin/gpg2"
"#;

fn load(text: &str, profile: &str) -> Result<Config, ConfigError> {
    load_configuration(text, profile)
}

#[test]
fn loads_a_profile() {
    let c = load(FULL, "work").unwrap();
    assert_eq!(c.dir, "/home/me/work");
    assert_eq!(c.sshaddr, "me@example.org");
    assert_eq!(c.gpg_id, "me@example.org");
    assert_eq!(c.temp, "/tmp/work-stage");
    assert_eq!(c.tar, "work-stage.tar.gz.gpg");
    assert_eq!(c.tar_hash, "work-stage.gpg.xxhash");
    assert_eq!(c.gpg_bin, None);
    assert!(!c.symmetric);
}

#[test]
fn loads_the_named_profile_among_several() {
    let c = load(FULL, "home").unwrap();
    assert_eq!(c.dir, "/home/me/private");
    assert_eq!(c.sshaddr, "me@backup");
    assert_eq!(c.gpg_id, "0xDEADBEEF");
    assert_eq!(c.temp, "/tmp/private.d/");
    assert_eq!(c.tar, "private.tar.gz.gpg");
    assert_eq!(c.tar_hash, "private.gpg.xxhash");
    assert_eq!(c.gpg_bin, Some("/usr/bin/gpg2".to_string()));
}

#[test]
fn rejects_text_that_is_no_toml() {
    assert_eq!(load("[work\nfolder = ", "work").unwrap_err(), ConfigError::Syntax);
}

#[test]
fn rejects_an_unknown_profile() {
    assert_eq!(load(FULL, "elsewhere").unwrap_err(), ConfigError::UnknownProfile);
    assert_eq!(load("", "work").unwrap_err(), ConfigError::UnknownProfile);
}

#[test]
fn names_the_first_missing_key() {
    let text = "[p]\nfolder = \"/a\"\ngpg_id = \"k\"\n";
    assert_eq!(load(text, "p").unwrap_err(), ConfigError::MissingKey(Key::SshAddress));
    assert_eq!(load("[p]\n", "p").unwrap_err(), ConfigError::MissingKey(Key::Folder));
    let text = "[p]\nfolder = \"/a\"\nssh_address = \"h\"\n";
    assert_eq!(load(text, "p").unwrap_err(), ConfigError::MissingKey(Key::GpgId));
    let text = "[p]\nfolder = \"/a\"\nssh_address = \"h\"\ngpg_id = \"k\"\n";
    assert_eq!(load(text, "p").unwrap_err(), ConfigError::MissingKey(Key::TempFolder));
}

#[test]
fn a_profile_that_is_no_table_lacks_every_key() {
    assert_eq!(load("p = 3\n", "p").unwrap_err(), ConfigError::MissingKey(Key::Folder));
}

#[test]
fn names_the_first_value_of_the_wrong_type() {
    let text = "[p]\nfolder = \"/a\"\nssh_address = 7\ngpg_id = true\ntemp_folder = \"/t/s\"\n";
    assert_eq!(load(text, "p").unwrap_err(), ConfigError::WrongType(Key::SshAddress));
    let text = "[p]\nfolder = [\"/a\"]\nssh_address = \"h\"\ngpg_id = \"k\"\ntemp_folder = \"/t/s\"\n";
    assert_eq!(load(text, "p").unwrap_err(), ConfigError::WrongType(Key::Folder));
    let text = "[p]\nfolder = \"/a\"\nssh_address = \"h\"\ngpg_id = 1\ntemp_folder = \"/t/s\"\n";
    assert_eq!(load(text, "p").unwrap_err(), ConfigError::WrongType(Key::GpgId));
    let text = "[p]\nfolder = \"/a\"\nssh_address = \"h\"\ngpg_id = \"k\"\ntemp_folder = 2.5\n";
    assert_eq!(load(text, "p").unwrap_err(), ConfigError::WrongType(Key::TempFolder));
}

#[test]
fn a_missing_key_is_reported_before_a_wrong_type() {
    let text = "[p]\nfolder = 1\nssh_address = \"h\"\ngpg_id = \"k\"\n";
    assert_eq!(load(text, "p").unwrap_err(), ConfigError::MissingKey(Key::TempFolder));
}

#[test]
fn the_optional_engine_path_must_be_a_string() {
    let text =
        "[p]\nfolder = \"/a\"\nssh_address = \"h\"\ngpg_id = \"k\"\ntemp_folder = \"/t/s\"\ngpg_program = 1\n";
    assert_eq!(load(text, "p").unwrap_err(), ConfigError::WrongType(Key::GpgProgram));
}

#[test]
fn rejects_a_staging_path_without_a_name() {
    let text = "[p]\nfolder = \"/a\"\nssh_address = \"h\"\ngpg_id = \"k\"\ntemp_folder = \"/\"\n";
    assert_eq!(load(text, "p").unwrap_err(), ConfigError::UnnamedTempFolder);
    let text = "[p]\nfolder = \"/a\"\nssh_address = \"h\"\ngpg_id = \"k\"\ntemp_folder = \"/tmp/..\"\n";
    assert_eq!(load(text, "p").unwrap_err(), ConfigError::UnnamedTempFolder);
}

#[test]
fn builds_a_configuration_from_a_parsed_document() {
    let mut table = toml::value::Table::new();
    table.insert("folder".to_string(), toml::Value::String("/d".to_string()));
    table.insert("ssh_address".to_string(), toml::Value::String("u@h".to_string()));
    table.insert("gpg_id".to_string(), toml::Value::String("id".to_string()));
    table.insert("temp_folder".to_string(), toml::Value::String("/tmp/st".to_string()));
    let mut doc = toml::value::Table::new();
    doc.insert("p".to_string(), toml::Value::Table(table));
    let doc = toml::Value::Table(doc);
    let c = config_from_value(&doc, "p").unwrap();
    assert_eq!(c.dir, "/d");
    assert_eq!(c.tar, "st.tar.gz.gpg");
    assert_eq!(c.tar_hash, "st.gpg.xxhash");
    assert_eq!(config_from_value(&doc, "q").unwrap_err(), ConfigError::UnknownProfile);
    assert_eq!(
        config_from_value(&toml::Value::Integer(1), "p").unwrap_err(),
        ConfigError::UnknownProfile
    );
}

#[test]
fn keys_are_spelled_as_in_the_file() {
    assert_eq!(Key::Folder.name(), "folder");
    assert_eq!(Key::SshAddress.name(), "ssh_address");
    assert_eq!(Key::GpgId.name(), "gpg_id");
    assert_eq!(Key::TempFolder.name(), "temp_folder");
    assert_eq!(Key::GpgProgram.name(), "gpg_program");
}
