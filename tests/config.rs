use impactifier::config::{
    arg, Config, ConfigError, CustomStep, OptionsConfig, RepositoryConfig, Rule, Transform,
    TransformStep,
};

fn step(name: &str, args: Option<Vec<(&str, &str)>>) -> TransformStep {
    TransformStep {
        name: name.to_string(),
        args: args.map(|a| {
            a.into_iter()
                .map(|(k, v)| (k.to_string(), v.to_string()))
                .collect()
        }),
    }
}

fn config(rules: Vec<Vec<TransformStep>>) -> Config {
    Config {
        repository: RepositoryConfig { url: None, path: None, access_token: None },
        options: OptionsConfig { clone_into: None },
        rules: rules
            .into_iter()
            .map(|steps| Rule { transform: Transform { steps } })
            .collect(),
    }
}

fn names_and_scripts(steps: Vec<CustomStep>) -> Vec<(String, String)> {
    steps.into_iter().map(|s| (s.name, s.script)).collect()
}

#[test]
fn custom_steps_are_collected_in_order_across_rules() {
    let cfg = config(vec![
        vec![
            step("toLowerCase", None),
            step("customA", Some(vec![("script", "a()")])),
            step("replace", Some(vec![("pattern", "x"), ("with", "y")])),
        ],
        vec![step("custom_b", Some(vec![("other", "1"), ("script", "b()")]))],
    ]);
    let found = cfg.custom_transform_scripts().unwrap();
    assert_eq!(
        names_and_scripts(found),
        vec![
            ("customA".to_string(), "a()".to_string()),
            ("custom_b".to_string(), "b()".to_string())
        ]
    );
}

#[test]
fn custom_steps_without_a_script_are_skipped() {
    let cfg = config(vec![vec![
        step("customA", None),
        step("customB", Some(vec![("code", "x")])),
        step("Custom", Some(vec![("script", "c()")])),
        step("xcustom", Some(vec![("script", "d()")])),
    ]]);
    assert!(cfg.custom_transform_scripts().is_none());
}

#[test]
fn no_rules_means_no_custom_steps() {
    assert!(config(vec![]).custom_transform_scripts().is_none());
}

#[test]
fn first_entry_for_a_key_wins() {
    let args = vec![
        ("script".to_string(), "one".to_string()),
        ("script".to_string(), "two".to_string()),
    ];
    assert_eq!(arg(&args, "script"), Some("one".to_string()));
    assert_eq!(arg(&args, "missing"), None);
}

#[test]
fn access_token_is_masked_to_its_last_five_characters() {
    let repo = RepositoryConfig {
        url: Some("https://example.com/repo.git".to_string()),
        path: None,
        access_token: Some("abcdefgh123".to_string()),
    };
    assert_eq!(
        repo.describe(),
        "RepositoryConfig { url: https://example.com/repo.git,  access_token: ****gh123 }"
    );
}

#[test]
fn short_access_token_shows_as_invalid() {
    let repo = RepositoryConfig {
        url: None,
        path: None,
        access_token: Some("abcd".to_string()),
    };
    assert_eq!(
        repo.describe(),
        "RepositoryConfig { url: None,  access_token: ****INVALID }"
    );
    let none = RepositoryConfig { url: None, path: None, access_token: None };
    assert_eq!(none.describe(), "RepositoryConfig { url: None,  access_token: None }");
}

#[test]
fn config_error_text_names_path_and_cause() {
    let e = ConfigError::ReadFailure {
        path: "cfg.yaml".to_string(),
        msg: "not found".to_string(),
    };
    assert_eq!(
        e.to_string(),
        "Failed to read config from path: cfg.yaml. Error:not found"
    );
}
