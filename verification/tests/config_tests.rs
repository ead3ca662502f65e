use git_lab::config::{
    update_config_from_env, update_config_from_git, Config, GitConfigSaveableLevel, OutputFormat,
    UserGitConfigLevel,
};

#[test]
fn test_update_config_from_env() {
    let mut conf = Config::new();
    conf.token = Some("token".to_string());

    let env = vec![
        ("GITLABCLI_TOKEN".to_string(), "env_token".to_string()),
        ("GITLABCLI_HOST".to_string(), "env_host".to_string()),
        ("GITLABCLI_TLS".to_string(), "yeS".to_string()),
        ("GITLABCLI_FORMAT".to_string(), "Json".to_string()),
    ];

    update_config_from_env(&mut conf, env);

    assert_eq!(conf.token.unwrap(), "env_token");
    assert_eq!(conf.host.unwrap(), "env_host");
    assert_eq!(conf.format.unwrap(), OutputFormat::JSON);
    assert!(conf.tls.unwrap());
}

#[test]
fn unrelated_env_vars_are_ignored() {
    let mut conf = Config::new();
    let env = vec![
        ("PATH".to_string(), "/usr/bin".to_string()),
        ("GITLABCLI_PROJECTID".to_string(), "42".to_string()),
    ];
    update_config_from_env(&mut conf, env);
    assert!(conf.token.is_none());
    assert_eq!(conf.projectid, Some(42));
}

#[test]
fn bad_env_projectid_clears_the_field() {
    let mut conf = Config::new();
    conf.projectid = Some(7);
    let env = vec![("GITLABCLI_PROJECTID".to_string(), "brad".to_string())];
    update_config_from_env(&mut conf, env);
    assert!(conf.projectid.is_none());
}

#[test]
fn test_update_config_from_empty_git() {
    let mut config = Config::new();
    update_config_from_git(&mut config, Vec::new());
    assert!(config.token.is_none());
    assert!(config.host.is_none());
    assert!(config.tls.is_none());
    assert!(config.format.is_none());
}

#[test]
fn test_update_config_from_git() {
    let mut config = Config::new();
    update_config_from_git(
        &mut config,
        vec![
            ("gitlab.token".to_string(), "testtoken".to_string()),
            ("gitlab.host".to_string(), "some.host.name".to_string()),
            ("gitlab.tls".to_string(), "true".to_string()),
            ("gitlab.format".to_string(), "json".to_string()),
        ],
    );
    assert_eq!(config.token.unwrap(), "testtoken");
    assert_eq!(config.host.unwrap(), "some.host.name");
    assert_eq!(config.format.unwrap(), OutputFormat::JSON);
    assert!(config.tls.unwrap());
}

#[test]
fn git_entries_update_the_config_in_order() {
    let mut conf = Config::new();
    let entries = vec![
        ("gitlab.token".to_string(), "testtoken".to_string()),
        ("gitlab.host".to_string(), "some.host.name".to_string()),
        ("gitlab.tls".to_string(), "on".to_string()),
        ("gitlab.format".to_string(), "json".to_string()),
        ("gitlab.projectid".to_string(), "42".to_string()),
        ("gitlab.host".to_string(), "other.host.name".to_string()),
    ];
    update_config_from_git(&mut conf, entries);
    assert_eq!(conf.token.unwrap(), "testtoken");
    assert_eq!(conf.host.unwrap(), "other.host.name");
    assert_eq!(conf.format.unwrap(), OutputFormat::JSON);
    assert_eq!(conf.projectid, Some(42));
    assert!(conf.tls.unwrap());
}

#[test]
fn tls_truthiness_matches_git_usage() {
    for word in ["True", "TrUe", "yes", "YEs", "1", "on"] {
        let mut conf = Config::new();
        update_config_from_git(
            &mut conf,
            vec![("gitlab.tls".to_string(), word.to_string())],
        );
        assert_eq!(conf.tls, Some(true), "{word} should switch TLS on");
    }
    for word in ["no", "False", "FaLse", "oFF", "0", "NO", "rubbish", "un dkf sdf sd", "x"] {
        let mut conf = Config::new();
        update_config_from_git(
            &mut conf,
            vec![("gitlab.tls".to_string(), word.to_string())],
        );
        assert_eq!(conf.tls, Some(false), "{word} should switch TLS off");
    }
}

#[test]
fn output_format_words() {
    assert_eq!(OutputFormat::from_str("JSON").unwrap(), OutputFormat::JSON);
    assert_eq!(OutputFormat::from_str("json").unwrap(), OutputFormat::JSON);
    assert_eq!(OutputFormat::from_str("tExT").unwrap(), OutputFormat::Text);
    assert!(OutputFormat::from_str("yaml").is_err());
    assert_eq!(OutputFormat::JSON.as_config_word(), "json");
    assert_eq!(OutputFormat::Text.as_config_word(), "text");
}

#[test]
fn config_levels_are_distinct() {
    assert_ne!(GitConfigSaveableLevel::Repo, GitConfigSaveableLevel::User);
    assert_ne!(UserGitConfigLevel::XDG, UserGitConfigLevel::Global);
    let empty = Config::new();
    assert!(empty.host.is_none() && empty.token.is_none() && empty.repo_path.is_none());
}
