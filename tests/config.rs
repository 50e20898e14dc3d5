use pup::config::{flag_from_lowered, Config, ConfigError, EnvVars, FileConfig, OutputFormat};

fn cfg(site: &str) -> Config {
    Config {
        api_key: None,
        app_key: None,
        access_token: None,
        site: site.into(),
        org: None,
        output_format: OutputFormat::Json,
        auto_approve: false,
        agent_mode: false,
    }
}

#[test]
fn environment_beats_file_beats_default() {
    let env = EnvVars {
        api_key: Some("envkey".into()),
        app_key: Some(String::new()),
        output: Some("TABLE".into()),
        auto_approve: Some("1".into()),
        ..Default::default()
    };
    let file = FileConfig {
        api_key: Some("filekey".into()),
        app_key: Some("fileapp".into()),
        site: Some("datadoghq.eu".into()),
        ..Default::default()
    };
    let c = Config::from_env(env, file);
    assert_eq!(c.api_key.as_deref(), Some("envkey"));
    assert_eq!(c.app_key.as_deref(), Some("fileapp"));
    assert_eq!(c.site, "datadoghq.eu");
    assert_eq!(c.output_format, OutputFormat::Table);
    assert!(c.auto_approve);
    assert!(!c.agent_mode);

    let d = Config::from_env(EnvVars::default(), FileConfig::default());
    assert_eq!(d.site, "datadoghq.com");
    assert_eq!(d.output_format, OutputFormat::Json);
    assert!(!d.auto_approve);
    assert!(d.access_token.is_none());
}

#[test]
fn unknown_output_falls_back_to_json_and_file_flag_counts() {
    let env = EnvVars {
        output: Some("xml".into()),
        cli_auto_approve: Some("yes".into()),
        ..Default::default()
    };
    let file = FileConfig { auto_approve: Some(true), ..Default::default() };
    let c = Config::from_env(env, file);
    assert_eq!(c.output_format, OutputFormat::Json);
    assert!(c.auto_approve);
}

#[test]
fn output_format_names() {
    assert_eq!(OutputFormat::parse("Yaml").unwrap(), OutputFormat::Yaml);
    assert_eq!(OutputFormat::parse("json").unwrap(), OutputFormat::Json);
    assert_eq!(
        OutputFormat::parse("csv").unwrap_err(),
        ConfigError::InvalidOutputFormat { given: "csv".into() }
    );
    assert_eq!(OutputFormat::Table.name(), "table");
}

#[test]
fn auth_validation() {
    let mut c = cfg("datadoghq.com");
    assert_eq!(c.validate_auth().unwrap_err(), ConfigError::AuthenticationRequired);
    c.api_key = Some("k".into());
    assert!(c.validate_auth().is_err());
    assert!(!c.has_api_keys());
    c.app_key = Some("a".into());
    assert!(c.validate_auth().is_ok());
    assert!(c.has_api_keys());
    let mut b = cfg("datadoghq.com");
    b.access_token = Some("t".into());
    assert!(b.has_bearer_token());
    assert!(b.validate_auth().is_ok());
}

#[test]
fn api_hosts() {
    assert_eq!(cfg("datadoghq.com").api_host(), "api.datadoghq.com");
    assert_eq!(cfg("us5.datadoghq.com").api_host(), "api.us5.datadoghq.com");
    assert_eq!(cfg("navy.oncall.datadoghq.com").api_host(), "navy.oncall.datadoghq.com");
}

use pup::args::{parse_sort, parse_storage_tier, tier_from_lowered, ArgError, KeySort, StorageTier};

#[test]
fn storage_tiers() {
    assert_eq!(parse_storage_tier(None), Ok(None));
    assert_eq!(parse_storage_tier(Some("Flex".into())), Ok(Some(StorageTier::Flex)));
    assert_eq!(
        parse_storage_tier(Some("online_archives".into())),
        Ok(Some(StorageTier::OnlineArchives))
    );
    assert_eq!(
        parse_storage_tier(Some("ONLINE-ARCHIVES".into())),
        Ok(Some(StorageTier::OnlineArchives))
    );
    assert_eq!(
        parse_storage_tier(Some("Cold".into())),
        Err(ArgError::UnknownStorageTier { given: "cold".into() })
    );
}

#[test]
fn key_sorts() {
    assert_eq!(parse_sort("-name"), Ok(KeySort::NameDescending));
    assert_eq!(parse_sort("last4"), Ok(KeySort::Last4Ascending));
    assert_eq!(parse_sort("created_at"), Ok(KeySort::CreatedAtAscending));
    assert_eq!(
        parse_sort("Name"),
        Err(ArgError::UnknownSort { given: "Name".into() })
    );
}

#[test]
fn deciders_over_lowercased_text() {
    assert_eq!(OutputFormat::from_lowered("yaml"), Some(OutputFormat::Yaml));
    assert_eq!(OutputFormat::from_lowered("YAML"), None);
    assert!(flag_from_lowered("true"));
    assert!(flag_from_lowered("1"));
    assert!(!flag_from_lowered("TRUE"));
    assert!(!flag_from_lowered("yes"));
    assert_eq!(tier_from_lowered("online-archives"), Some(StorageTier::OnlineArchives));
    assert_eq!(tier_from_lowered("Flex"), None);
}
