use falcon_launcher::errors::LauncherError;
use falcon_launcher::rules::{
    evaluate_rules, fetch_rules, is_os_allowed, rules_from_value, Rule, RuleAction,
};

#[test]
fn empty_rules_allow_every_known_platform() {
    let rules: Vec<Rule> = Vec::new();
    let lr = evaluate_rules(&rules);
    assert_eq!(lr.allowed_oses, vec!["osx", "windows", "linux"]);
    assert!(lr.disallowed_oses.is_empty());
    for os in ["osx", "windows", "linux"] {
        assert!(is_os_allowed(&lr, os));
    }
    assert!(!is_os_allowed(&lr, "beos"));
}

#[test]
fn absent_rules_allow_every_known_platform() {
    let lr = fetch_rules(None).unwrap();
    assert_eq!(lr.allowed_oses, vec!["osx", "windows", "linux"]);
    assert!(lr.disallowed_oses.is_empty());
    assert!(is_os_allowed(&lr, "windows"));
    assert!(is_os_allowed(&lr, "linux"));
    assert!(is_os_allowed(&lr, "osx"));
}

#[test]
fn scoped_allow_only_admits_its_platform() {
    let rules = vec![Rule { action: RuleAction::Allow, os: Some("osx".to_string()) }];
    let lr = evaluate_rules(&rules);
    assert!(is_os_allowed(&lr, "osx"));
    assert!(!is_os_allowed(&lr, "linux"));
}

#[test]
fn disallow_after_allow_accumulates() {
    let rules = vec![
        Rule { action: RuleAction::Allow, os: None },
        Rule { action: RuleAction::Disallow, os: Some("osx".to_string()) },
    ];
    let lr = evaluate_rules(&rules);
    assert!(is_os_allowed(&lr, "windows"));
    assert!(is_os_allowed(&lr, "linux"));
    assert!(!is_os_allowed(&lr, "osx"));
    // appending more rules never removes an earlier membership
    let mut more = rules.clone();
    more.push(Rule { action: RuleAction::Allow, os: Some("osx".to_string()) });
    let lr2 = evaluate_rules(&more);
    assert!(lr2.allowed_oses.contains(&"osx".to_string()));
    assert!(lr2.disallowed_oses.contains(&"osx".to_string()));
    // still denied: membership on the deny list wins
    assert!(!is_os_allowed(&lr2, "osx"));
}

#[test]
fn rules_parse_from_json() {
    let text = r#"[
        {"action": "allow"},
        {"action": "disallow", "os": {"name": "osx"}}
    ]"#;
    let value = serde_json::from_str::<serde_json::Value>(text).unwrap();
    let rules = rules_from_value(&value).unwrap();
    assert_eq!(rules.len(), 2);
    assert_eq!(rules[0], Rule { action: RuleAction::Allow, os: None });
    assert_eq!(
        rules[1],
        Rule { action: RuleAction::Disallow, os: Some("osx".to_string()) }
    );
    let lr = fetch_rules(Some(&value)).unwrap();
    assert!(is_os_allowed(&lr, "windows"));
    assert!(!is_os_allowed(&lr, "osx"));
}

#[test]
fn malformed_rule_fails_the_load() {
    let value = serde_json::from_str::<serde_json::Value>(r#"[{"os": {"name": "osx"}}]"#).unwrap();
    assert_eq!(rules_from_value(&value), Err(LauncherError::ManifestCorrupt));
    let value = serde_json::from_str::<serde_json::Value>(r#"[{"action": "maybe"}]"#).unwrap();
    assert_eq!(rules_from_value(&value), Err(LauncherError::ManifestCorrupt));
    let value = serde_json::from_str::<serde_json::Value>(r#""not an array""#).unwrap();
    assert_eq!(rules_from_value(&value), Err(LauncherError::ManifestCorrupt));
}

#[test]
fn empty_rule_array_still_allows() {
    let value = serde_json::from_str::<serde_json::Value>("[]").unwrap();
    let lr = fetch_rules(Some(&value)).unwrap();
    assert!(is_os_allowed(&lr, "linux"));
}
