use kube_permission_evidence::rules::rule_matches;
use kube_permission_evidence::{parse_subject, AccessCheck, PolicyRule};

#[test]
fn parses_documented_subjects() {
    assert_eq!(
        parse_subject("user:alice@example.com").unwrap().name,
        "alice@example.com"
    );
    assert_eq!(parse_subject("user:oidc:alice").unwrap().name, "oidc:alice");
    assert_eq!(
        parse_subject("serviceaccount:payments:worker")
            .unwrap()
            .namespace
            .as_deref(),
        Some("payments")
    );
    assert!(parse_subject("serviceaccount:broken").is_err());
}

#[test]
fn subresources_and_named_resources_are_exact() {
    let rule = PolicyRule {
        api_groups: vec!["".into()],
        resources: vec!["pods/exec".into()],
        verbs: vec!["create".into()],
        resource_names: vec!["shell".into()],
        ..Default::default()
    };
    let mut check = AccessCheck {
        verb: "create".into(),
        api_group: "".into(),
        resource: Some("pods".into()),
        subresource: Some("exec".into()),
        namespace: Some("dev".into()),
        resource_name: Some("shell".into()),
        field_selector: None,
        non_resource_url: None,
    };
    assert!(rule_matches(&rule, &check));
    check.resource_name = None;
    assert!(!rule_matches(&rule, &check));
}

#[test]
fn wildcard_subresource_matches_only_that_subresource() {
    let rule = PolicyRule {
        api_groups: vec!["apps".into()],
        resources: vec!["*/scale".into()],
        verbs: vec!["update".into()],
        ..Default::default()
    };
    let mut check = AccessCheck {
        verb: "update".into(),
        api_group: "apps".into(),
        resource: Some("deployments".into()),
        subresource: Some("scale".into()),
        namespace: Some("payments".into()),
        resource_name: None,
        field_selector: None,
        non_resource_url: None,
    };

    assert!(rule_matches(&rule, &check));
    check.resource = Some("statefulsets".into());
    assert!(rule_matches(&rule, &check));
    check.subresource = Some("status".into());
    assert!(!rule_matches(&rule, &check));
    check.subresource = None;
    assert!(!rule_matches(&rule, &check));
}

#[test]
fn non_resource_url_supports_trailing_wildcard_only() {
    let rule = PolicyRule {
        verbs: vec!["get".into()],
        non_resource_urls: vec!["/healthz/*".into()],
        ..Default::default()
    };
    let check = AccessCheck {
        verb: "get".into(),
        api_group: "".into(),
        resource: None,
        subresource: None,
        namespace: None,
        resource_name: None,
        field_selector: None,
        non_resource_url: Some("/healthz/ready".into()),
    };
    assert!(rule_matches(&rule, &check));
}
