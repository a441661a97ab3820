use kube_permission_evidence::commands::{
    assemble_snapshot, exit_code, validate_matrix, validate_snapshot, verification_message, FailOn,
};
use kube_permission_evidence::packet::{
    key_file_text, public_key_file_text, require_fingerprint, require_public_key, sign,
    signer_of_key, signer_of_seed, verify,
};
use kube_permission_evidence::render::{escape_inline, escape_table, markdown};
use kube_permission_evidence::{
    evaluate, evaluated_groups, parse_subject, AccessCheck, AccessMatrix, Binding, EvidenceReport,
    EvidenceSource, EvidenceSummary, ObjectMeta, PacketSignature, PolicyRule, RbacSubject, Role,
    RoleRef, Snapshot, SubjectIdentity,
};

const SEED: &str = "9d61b19deffd5a60ba844af492ec2cc44449c5697b326919703bac031cae7f60";
const PUBLIC_KEY: &str = "11qYAYKxCrfVS/7TyWQHOg7hcvPapiMlrwIaaPcHURo=";
const FINGERPRINT: &str =
    "SHA256:21fe31dfa154a261626bf854046fd2271b7bed4b6abe45aa58877ef47f9721b9";
const EMPTY_SIGNATURE: &str =
    "5VZDAMNgrHKQhuLMgG6CioSHfx645dl02HPgZSJJAVVfuIIVkKM7rMYeOXAc+bRr0lv18FlbviRlUUFDjnoQCw==";
const EMPTY_SHA256: &str = "e3b0c44298fc1c149afbf4c8996fb92427ae41e4649b934ca495991b7852b855";

fn question(verb: &str, resource: Option<&str>, url: Option<&str>) -> AccessCheck {
    AccessCheck {
        verb: verb.into(),
        api_group: String::new(),
        resource: resource.map(str::to_owned),
        subresource: None,
        namespace: None,
        resource_name: None,
        field_selector: None,
        non_resource_url: url.map(str::to_owned),
    }
}

fn meta(name: &str, namespace: Option<&str>) -> ObjectMeta {
    ObjectMeta {
        name: name.into(),
        namespace: namespace.map(str::to_owned),
        labels: Default::default(),
    }
}

fn role(kind: &str, name: &str, namespace: Option<&str>, rules: Vec<PolicyRule>) -> Role {
    Role {
        kind: kind.into(),
        metadata: meta(name, namespace),
        rules,
        aggregation_rule: None,
    }
}

fn user_binding(kind: &str, name: &str, namespace: Option<&str>, role_kind: &str, role_name: &str) -> Binding {
    Binding {
        kind: kind.into(),
        metadata: meta(name, namespace),
        subjects: vec![RbacSubject {
            kind: "User".into(),
            name: "alice".into(),
            namespace: None,
            api_group: None,
        }],
        role_ref: RoleRef {
            kind: role_kind.into(),
            name: role_name.into(),
            api_group: None,
        },
    }
}

fn snapshot(roles: Vec<Role>, cluster_roles: Vec<Role>, role_bindings: Vec<Binding>, cluster_role_bindings: Vec<Binding>) -> Snapshot {
    Snapshot {
        schema_version: "kpe.snapshot/v1".into(),
        collected_at: "2026-08-28T00:00:00Z".into(),
        collector_version: "0.1.0".into(),
        context: "test".into(),
        server_version: "v1.33.4".into(),
        roles,
        cluster_roles,
        role_bindings,
        cluster_role_bindings,
    }
}

fn empty_report() -> EvidenceReport {
    EvidenceReport {
        schema_version: "kpe.evidence/v1".into(),
        generated_at: "now".into(),
        tool_version: "0.1.0".into(),
        subject: SubjectIdentity {
            kind: "User".into(),
            name: "alice".into(),
            namespace: None,
        },
        evaluated_groups: vec![],
        source: EvidenceSource {
            collected_at: "then".into(),
            context: "ctx".into(),
            server_version: "v1".into(),
            snapshot_sha256: "00".into(),
            role_count: 0,
            cluster_role_count: 0,
            role_binding_count: 0,
            cluster_role_binding_count: 0,
        },
        summary: EvidenceSummary {
            total: 0,
            allowed: 0,
            denied: 0,
            uncertain: 0,
        },
        checks: vec![],
        limitations: vec![],
        signature: None,
    }
}

#[test]
fn every_validation_error_has_its_message() {
    let ok = question("get", Some("pods"), None);
    assert_eq!(ok.validate(), Ok(()));

    let blank = question("  ", Some("pods"), None);
    assert_eq!(blank.validate().unwrap_err(), "verb must not be empty");

    let both = question("get", Some("pods"), Some("/healthz"));
    assert_eq!(both.validate().unwrap_err(), "set resource or nonResourceURL, not both");

    let neither = question("get", None, None);
    assert_eq!(neither.validate().unwrap_err(), "set resource or nonResourceURL");

    let mut sub = question("get", None, Some("/healthz"));
    sub.subresource = Some("status".into());
    assert_eq!(sub.validate().unwrap_err(), "subresource requires resource");

    let mut url = question("get", None, Some("/healthz"));
    url.namespace = Some("dev".into());
    assert_eq!(
        url.validate().unwrap_err(),
        "nonResourceURL checks cannot include apiGroup, namespace, subresource, resourceName, or fieldSelector"
    );

    let mut selector = question("list", Some("pods"), None);
    selector.field_selector = Some("metadata.name=a".into());
    assert_eq!(selector.validate().unwrap_err(), "fieldSelector requires resourceName");

    selector.resource_name = Some("a".into());
    assert_eq!(selector.validate(), Ok(()));
    selector.verb = "get".into();
    assert_eq!(
        selector.validate().unwrap_err(),
        "fieldSelector is supported only for list or watch checks"
    );
}

#[test]
fn subject_forms_and_their_errors() {
    let sa = parse_subject("sa:ops:bot").unwrap();
    assert_eq!(sa.kind, "ServiceAccount");
    assert_eq!(sa.name, "bot");
    assert_eq!(sa.namespace.as_deref(), Some("ops"));
    assert_eq!(sa.label(), "serviceaccount:ops:bot");

    let group = parse_subject("group:devs").unwrap();
    assert_eq!(group.kind, "Group");
    assert_eq!(group.label(), "group:devs");

    assert_eq!(
        parse_subject("user:").unwrap_err(),
        "expected user:<name>, group:<name>, or serviceaccount:<namespace>:<name>"
    );
    assert_eq!(
        parse_subject("robot:r2").unwrap_err(),
        "expected user:<name>, group:<name>, or serviceaccount:<namespace>:<name>"
    );
    assert_eq!(
        parse_subject("serviceaccount:a:b:c").unwrap_err(),
        "expected serviceaccount:<namespace>:<name>"
    );
    assert_eq!(
        parse_subject("serviceaccount::b").unwrap_err(),
        "expected serviceaccount:<namespace>:<name>"
    );
}

#[test]
fn evaluated_groups_are_sorted_unique_and_derived() {
    let sa = parse_subject("serviceaccount:ops:bot").unwrap();
    let groups = evaluated_groups(&sa, &["zeta".into(), "alpha".into(), "zeta".into(), " ".into()]);
    assert_eq!(
        groups,
        vec![
            "alpha".to_string(),
            "system:authenticated".into(),
            "system:serviceaccounts".into(),
            "system:serviceaccounts:ops".into(),
            "zeta".into(),
        ]
    );

    let anonymous = parse_subject("user:system:anonymous").unwrap();
    assert_eq!(evaluated_groups(&anonymous, &["team".into()]), vec!["team".to_string()]);

    let user = parse_subject("user:alice").unwrap();
    assert_eq!(evaluated_groups(&user, &[]), vec!["system:authenticated".to_string()]);

    let group = parse_subject("group:devs").unwrap();
    assert!(evaluated_groups(&group, &[]).is_empty());
}

#[test]
fn target_writes_resource_path_or_url() {
    let mut check = question("create", Some("pods"), None);
    check.subresource = Some("exec".into());
    check.resource_name = Some("shell".into());
    assert_eq!(check.target(), "pods/exec/shell");

    let mut scaled = question("update", Some("deployments"), None);
    scaled.api_group = "apps".into();
    scaled.subresource = Some("scale".into());
    scaled.resource_name = Some("web".into());
    assert_eq!(scaled.target(), "deployments/scale.apps/web");

    assert_eq!(question("get", None, Some("/healthz/ready")).target(), "/healthz/ready");
}

#[test]
fn markdown_escapes() {
    assert_eq!(escape_table("a|b`c"), "a\\|b\\`c");
    assert_eq!(escape_inline("a|b`c"), "a|b\\`c");
}

#[test]
fn markdown_of_an_empty_unsigned_packet() {
    let report = empty_report();
    let text = markdown(&report, &vec![]);
    assert!(text.starts_with(
        "# Kubernetes permission evidence\n\n**Subject:** `user:alice`  \n**Collected:** then  \n**Context:** `ctx`  \n"
    ));
    assert!(text.contains("**Packet signature:** Not signed  \n"));
    assert!(text.contains("0 checks: **0 allowed**, **0 denied**, **0 uncertain**.\n\n"));
    assert!(text.contains("The supplied matrix contained no checks.\n\n"));
    assert!(text.contains("Inventory: 0 Roles, 0 ClusterRoles, 0 RoleBindings, 0 ClusterRoleBindings.\n\n"));
    assert!(text.ends_with(
        "\n---\nGenerated by Kube Permission Evidence. Verify the JSON companion with `kpe verify`.\n"
    ));
}

#[test]
fn markdown_quotes_each_grant_rule() {
    let snap = snapshot(
        vec![],
        vec![role("ClusterRole", "reader", None, vec![PolicyRule {
            api_groups: vec!["".into()],
            resources: vec!["pods".into()],
            verbs: vec!["get".into()],
            ..Default::default()
        }])],
        vec![],
        vec![user_binding("ClusterRoleBinding", "alice-read", None, "ClusterRole", "reader")],
    );
    let subject = parse_subject("user:alice").unwrap();
    let matrix = AccessMatrix { checks: vec![question("get", Some("pods"), None)] };
    let report = evaluate(&snap, &subject, &[], &matrix, b"{}");
    let text = markdown(&report, &vec![vec!["{\n  \"verbs\": []\n}".to_string()]]);
    assert!(text.contains("| 1 | **ALLOWED** | `get` | `pods` | cluster / non-resource | 1 |\n"));
    assert!(text.contains("### 1. get `pods` in `cluster / non-resource`\n\n**ALLOWED**\n\n"));
    assert!(text.contains(
        "1. `User` matches `ClusterRoleBinding/alice-read` → `ClusterRole/reader` rule 0\n\n   ```json\n   {\n     \"verbs\": []\n   }\n   ```\n\n"
    ));
    assert!(text.contains("Evaluated group memberships: `system:authenticated`.\n\n"));
}

#[test]
fn snapshot_and_matrix_validation() {
    let mut snap = snapshot(vec![], vec![], vec![], vec![]);
    assert_eq!(validate_snapshot(&snap), Ok(()));
    snap.schema_version = "kpe.snapshot/v0".into();
    assert_eq!(
        validate_snapshot(&snap).unwrap_err(),
        "unsupported snapshot schema \"kpe.snapshot/v0\"; expected kpe.snapshot/v1"
    );

    let good = AccessMatrix { checks: vec![question("get", Some("pods"), None)] };
    assert_eq!(validate_matrix(&good), Ok(()));
    let bad = AccessMatrix {
        checks: vec![question("get", Some("pods"), None), question("", Some("pods"), None)],
    };
    assert_eq!(validate_matrix(&bad).unwrap_err(), "matrix check 2: verb must not be empty");
}

#[test]
fn exit_codes_follow_fail_on() {
    let summary = EvidenceSummary { total: 2, allowed: 1, denied: 1, uncertain: 0 };
    assert_eq!(exit_code(&summary, None), 0);
    assert_eq!(exit_code(&summary, Some(FailOn::Allowed)), 3);
    assert_eq!(exit_code(&summary, Some(FailOn::Denied)), 3);
    let all_allowed = EvidenceSummary { total: 1, allowed: 1, denied: 0, uncertain: 0 };
    assert_eq!(exit_code(&all_allowed, Some(FailOn::Denied)), 0);
}

#[test]
fn verification_lines() {
    assert_eq!(
        verification_message("user:alice", "SHA256:ab", true),
        "VALID — signature, digest, and trusted signer match for user:alice. Signer: SHA256:ab."
    );
    assert_eq!(
        verification_message("user:alice", "SHA256:ab", false),
        "VALID CONTENT — signature and digest match for user:alice. Signer: SHA256:ab. Trust was not checked; pass --trusted-public-key or --trusted-fingerprint."
    );
}

#[test]
fn assembled_snapshot_fills_defaults() {
    let snap = assemble_snapshot("t".into(), Some("  prod \n".into()), "{\"clientVersion\":{}}", vec![], vec![], vec![], vec![]).unwrap();
    assert_eq!(snap.schema_version, "kpe.snapshot/v1");
    assert_eq!(snap.context, "prod");
    assert_eq!(snap.server_version, "unknown");
    assert_eq!(snap.collector_version, "0.1.0");
    let reported = assemble_snapshot(
        "t".into(),
        None,
        "{\"serverVersion\": {\"major\": \"1\", \"gitVersion\": \"v1.30.1\"}}",
        vec![],
        vec![],
        vec![],
        vec![],
    )
    .unwrap();
    assert_eq!(reported.context, "unknown");
    assert_eq!(reported.server_version, "v1.30.1");
    let not_a_string = assemble_snapshot("t".into(), None, "{\"serverVersion\":{\"gitVersion\":7}}", vec![], vec![], vec![], vec![]).unwrap();
    assert_eq!(not_a_string.server_version, "unknown");
    assert_eq!(
        assemble_snapshot("t".into(), None, "Client Version: v1.30.1", vec![], vec![], vec![], vec![]).unwrap_err(),
        "kubectl version returned invalid JSON: expected value at line 1 column 1"
    );
}

#[test]
fn signer_identity_of_a_known_seed() {
    let seed = [
        0x9d, 0x61, 0xb1, 0x9d, 0xef, 0xfd, 0x5a, 0x60, 0xba, 0x84, 0x4a, 0xf4, 0x92, 0xec, 0x2c,
        0xc4, 0x44, 0x49, 0xc5, 0x69, 0x7b, 0x32, 0x69, 0x19, 0x70, 0x3b, 0xac, 0x03, 0x1c, 0xae,
        0x7f, 0x60,
    ];
    let signer = signer_of_seed(&seed);
    assert_eq!(signer.public_key, PUBLIC_KEY);
    assert_eq!(signer.fingerprint, FINGERPRINT);
    let empty = signer_of_key(&[]);
    assert_eq!(empty.public_key, "");
    assert_eq!(empty.fingerprint, format!("SHA256:{EMPTY_SHA256}"));
}

#[test]
fn signing_writes_the_expected_block() {
    let mut report = empty_report();
    sign(&mut report, &format!("  {SEED}\n"), b"").unwrap();
    let signature = report.signature.clone().unwrap();
    assert_eq!(signature.algorithm, "Ed25519");
    assert_eq!(signature.public_key, PUBLIC_KEY);
    assert_eq!(signature.signature, EMPTY_SIGNATURE);
    assert_eq!(signature.content_sha256, EMPTY_SHA256);
    let signer = verify(&report, b"").unwrap();
    assert_eq!(signer.fingerprint, FINGERPRINT);
    assert!(require_public_key(&signer, &format!("{PUBLIC_KEY}\n")).is_ok());
    assert!(require_fingerprint(&signer, FINGERPRINT).is_ok());
    assert_eq!(
        require_public_key(&signer, "AAAA").unwrap_err(),
        "packet signer does not match the trusted public key"
    );
    assert_eq!(require_fingerprint(&signer, "SHA256:00").unwrap_err(), "signer fingerprint mismatch");
    let text = markdown(&report, &vec![]);
    assert!(text.contains(&format!(
        "**Packet signature:** Ed25519 `5VZDAMNgrHKQhuLM`…  \n**Signed content SHA-256:** `{EMPTY_SHA256}`  \n"
    )));
}

#[test]
fn signing_rejects_bad_keys_and_clears_the_old_block() {
    let mut report = empty_report();
    sign(&mut report, SEED, b"x").unwrap();
    assert_eq!(
        sign(&mut report, "zz", b"x").unwrap_err(),
        "signing key is not hex: Invalid character 'z' at position 0"
    );
    assert_eq!(
        sign(&mut report, "abc", b"x").unwrap_err(),
        "signing key is not hex: Odd number of digits"
    );
    assert!(report.signature.is_none());
    assert_eq!(
        sign(&mut report, "abcd", b"x").unwrap_err(),
        "signing key must contain exactly 32 bytes"
    );
}

fn block(algorithm: &str, public_key: &str, signature: &str, digest: &str) -> PacketSignature {
    PacketSignature {
        algorithm: algorithm.into(),
        public_key: public_key.into(),
        signature: signature.into(),
        content_sha256: digest.into(),
    }
}

#[test]
fn verification_errors_in_order() {
    let mut report = empty_report();
    assert_eq!(verify(&report, b"").unwrap_err(), "packet is not signed");
    report.signature = Some(block("RSA", PUBLIC_KEY, EMPTY_SIGNATURE, EMPTY_SHA256));
    assert_eq!(verify(&report, b"").unwrap_err(), "unsupported signature algorithm: RSA");
    report.signature = Some(block("Ed25519", PUBLIC_KEY, EMPTY_SIGNATURE, "00"));
    assert_eq!(
        verify(&report, b"").unwrap_err(),
        "content digest does not match; packet was changed"
    );
    report.signature = Some(block("Ed25519", "!!", EMPTY_SIGNATURE, EMPTY_SHA256));
    let encoding = verify(&report, b"").unwrap_err();
    assert!(encoding.starts_with("invalid public key encoding: "), "{encoding}");
    assert!(encoding.len() > "invalid public key encoding: ".len());
    report.signature = Some(block("Ed25519", "AAAA", EMPTY_SIGNATURE, EMPTY_SHA256));
    assert_eq!(verify(&report, b"").unwrap_err(), "invalid public key length");
    report.signature = Some(block("Ed25519", PUBLIC_KEY, "!!", EMPTY_SHA256));
    let encoding = verify(&report, b"").unwrap_err();
    assert!(encoding.starts_with("invalid signature encoding: "), "{encoding}");
    assert!(encoding.len() > "invalid signature encoding: ".len());
    report.signature = Some(block("Ed25519", PUBLIC_KEY, "AAAA", EMPTY_SHA256));
    assert_eq!(verify(&report, b"").unwrap_err(), "invalid signature length");
    let zero_signature = "A".repeat(86) + "==";
    report.signature = Some(block("Ed25519", PUBLIC_KEY, &zero_signature, EMPTY_SHA256));
    let failed = verify(&report, b"").unwrap_err();
    assert!(failed.starts_with("signature verification failed: signature error"), "{failed}");
}

#[test]
fn report_records_snapshot_digest_and_inventory() {
    let snap = snapshot(vec![], vec![], vec![], vec![]);
    let subject = parse_subject("user:alice").unwrap();
    let report = evaluate(&snap, &subject, &[], &AccessMatrix { checks: vec![] }, b"{}");
    assert_eq!(
        report.source.snapshot_sha256,
        "44136fa355b3678a1146ad16f7e8649e94fb4fc21fe77e8310c060f61caaff8a"
    );
    assert_eq!(report.schema_version, "kpe.evidence/v1");
    assert_eq!(report.tool_version, "0.1.0");
    assert_eq!(report.source.context, "test");
    assert_eq!(report.limitations.len(), 4);
    assert!(report.signature.is_none());
    assert_eq!(report.summary.total, 0);
}

#[test]
fn non_resource_urls_are_granted_only_by_cluster_role_bindings() {
    let health = PolicyRule {
        verbs: vec!["get".into()],
        non_resource_urls: vec!["/healthz/*".into()],
        ..Default::default()
    };
    let url = question("get", None, Some("/healthz/ready"));
    let matrix = AccessMatrix { checks: vec![url] };
    let subject = parse_subject("user:alice").unwrap();

    let through_role_binding = snapshot(
        vec![],
        vec![role("ClusterRole", "health", None, vec![health.clone()])],
        vec![user_binding("RoleBinding", "health", Some("dev"), "ClusterRole", "health")],
        vec![],
    );
    let denied = evaluate(&through_role_binding, &subject, &[], &matrix, b"{}");
    assert!(!denied.checks[0].allowed);
    assert_eq!(denied.summary.denied, 1);

    let through_cluster_binding = snapshot(
        vec![],
        vec![role("ClusterRole", "health", None, vec![health])],
        vec![],
        vec![user_binding("ClusterRoleBinding", "health", None, "ClusterRole", "health")],
    );
    let allowed = evaluate(&through_cluster_binding, &subject, &[], &matrix, b"{}");
    assert!(allowed.checks[0].allowed);
    assert_eq!(allowed.checks[0].grants[0].binding_kind, "ClusterRoleBinding");
}

#[test]
fn aggregated_roles_make_allowed_results_uncertain() {
    let mut aggregated = role("ClusterRole", "agg", None, vec![PolicyRule {
        api_groups: vec!["*".into()],
        resources: vec!["*".into()],
        verbs: vec!["*".into()],
        ..Default::default()
    }]);
    aggregated.aggregation_rule = Some(serde_json::from_str("{\"clusterRoleSelectors\": []}").unwrap());
    let snap = snapshot(
        vec![],
        vec![aggregated],
        vec![],
        vec![user_binding("ClusterRoleBinding", "agg", None, "ClusterRole", "agg")],
    );
    let subject = parse_subject("user:alice").unwrap();
    let matrix = AccessMatrix {
        checks: vec![question("get", Some("pods"), None), question("get", None, Some("/x"))],
    };
    let report = evaluate(&snap, &subject, &[], &matrix, b"{}");
    assert!(report.checks[0].allowed && report.checks[0].uncertain);
    assert_eq!(
        report.checks[0].grants[0].uncertainty.as_deref(),
        Some("ClusterRole agg uses aggregationRule; evaluated rules are the API server's collected controller result")
    );
    assert!(!report.checks[1].allowed && !report.checks[1].uncertain);
    assert_eq!(report.summary.uncertain, 1);
    assert_eq!(report.summary.allowed, 1);
    assert_eq!(report.summary.denied, 1);
}

#[test]
fn grants_come_in_binding_order() {
    let read = PolicyRule {
        api_groups: vec!["".into()],
        resources: vec!["pods".into()],
        verbs: vec!["get".into()],
        ..Default::default()
    };
    let snap = snapshot(
        vec![role("Role", "reader", Some("dev"), vec![read.clone(), read.clone()])],
        vec![role("ClusterRole", "reader", None, vec![read])],
        vec![
            user_binding("RoleBinding", "b-bind", Some("dev"), "Role", "reader"),
            user_binding("RoleBinding", "a-bind", Some("dev"), "Role", "reader"),
        ],
        vec![user_binding("ClusterRoleBinding", "z-bind", None, "ClusterRole", "reader")],
    );
    let subject = parse_subject("user:alice").unwrap();
    let mut check = question("get", Some("pods"), None);
    check.namespace = Some("dev".into());
    let report = evaluate(&snap, &subject, &[], &AccessMatrix { checks: vec![check] }, b"{}");
    let order: Vec<(String, String, usize)> = report.checks[0]
        .grants
        .iter()
        .map(|g| (g.binding_kind.clone(), g.binding_name.clone(), g.rule_index))
        .collect();
    assert_eq!(
        order,
        vec![
            ("ClusterRoleBinding".to_string(), "z-bind".to_string(), 0),
            ("RoleBinding".to_string(), "a-bind".to_string(), 0),
            ("RoleBinding".to_string(), "a-bind".to_string(), 1),
            ("RoleBinding".to_string(), "b-bind".to_string(), 0),
            ("RoleBinding".to_string(), "b-bind".to_string(), 1),
        ]
    );
}

#[test]
fn every_matching_subject_of_a_binding_is_a_grant_path() {
    let read = PolicyRule {
        api_groups: vec!["".into()],
        resources: vec!["pods".into()],
        verbs: vec!["get".into()],
        ..Default::default()
    };
    let mut binding = user_binding("ClusterRoleBinding", "readers", None, "ClusterRole", "reader");
    binding.subjects.push(RbacSubject {
        kind: "Group".into(),
        name: "devs".into(),
        namespace: None,
        api_group: None,
    });
    binding.subjects.push(RbacSubject {
        kind: "Group".into(),
        name: "others".into(),
        namespace: None,
        api_group: None,
    });
    let snap = snapshot(vec![], vec![role("ClusterRole", "reader", None, vec![read])], vec![], vec![binding]);
    let subject = parse_subject("user:alice").unwrap();
    let matrix = AccessMatrix { checks: vec![question("get", Some("pods"), None)] };
    let report = evaluate(&snap, &subject, &["devs".into()], &matrix, b"{}");
    let matched: Vec<String> = report.checks[0]
        .grants
        .iter()
        .map(|g| format!("{}:{}", g.matched_subject.kind, g.matched_subject.name))
        .collect();
    assert_eq!(matched, vec!["User:alice".to_string(), "Group:devs".to_string()]);
}

#[test]
fn keygen_files_sign_and_name_the_signer() {
    let seed = [
        0x9d, 0x61, 0xb1, 0x9d, 0xef, 0xfd, 0x5a, 0x60, 0xba, 0x84, 0x4a, 0xf4, 0x92, 0xec, 0x2c,
        0xc4, 0x44, 0x49, 0xc5, 0x69, 0x7b, 0x32, 0x69, 0x19, 0x70, 0x3b, 0xac, 0x03, 0x1c, 0xae,
        0x7f, 0x60,
    ];
    let key_file = key_file_text(&seed);
    assert_eq!(key_file, format!("{SEED}\n"));
    let signer = signer_of_seed(&seed);
    let public_file = public_key_file_text(&signer);
    assert_eq!(public_file, format!("{PUBLIC_KEY}\n"));

    let mut report = empty_report();
    sign(&mut report, &key_file, b"content").unwrap();
    let verified = verify(&report, b"content").unwrap();
    assert!(require_public_key(&verified, &public_file).is_ok());
    assert!(require_fingerprint(&verified, &signer.fingerprint).is_ok());
    assert!(require_fingerprint(&verified, &format!("SHA256:{}", "0".repeat(64))).is_err());

    let other = signer_of_seed(&[7u8; 32]);
    assert!(require_public_key(&verified, &public_key_file_text(&other)).is_err());
    assert!(verify(&report, b"changed").is_err());
}

#[test]
fn more_bindings_and_groups_keep_allowed_checks_allowed() {
    let read = PolicyRule {
        api_groups: vec!["".into()],
        resources: vec!["pods".into()],
        verbs: vec!["get".into()],
        ..Default::default()
    };
    let reader = role("ClusterRole", "reader", None, vec![read]);
    let mut group_binding = user_binding("ClusterRoleBinding", "devs-read", None, "ClusterRole", "reader");
    group_binding.subjects[0] = RbacSubject {
        kind: "Group".into(),
        name: "devs".into(),
        namespace: None,
        api_group: None,
    };
    let small = snapshot(
        vec![],
        vec![reader.clone()],
        vec![],
        vec![user_binding("ClusterRoleBinding", "alice-read", None, "ClusterRole", "reader")],
    );
    let mut large = small.clone();
    large.cluster_role_bindings.push(group_binding);
    large.cluster_roles.push(role("ClusterRole", "reader", None, vec![]));
    let subject = parse_subject("user:alice").unwrap();
    let matrix = AccessMatrix { checks: vec![question("get", Some("pods"), None)] };
    let before = evaluate(&small, &subject, &[], &matrix, b"{}");
    let after = evaluate(&large, &subject, &["devs".into()], &matrix, b"{}");
    assert!(before.checks[0].allowed && after.checks[0].allowed);
    assert_eq!(before.checks[0].grants.len(), 1);
    assert_eq!(after.checks[0].grants.len(), 2);
}

#[test]
fn assembled_snapshot_keeps_labels_and_aggregation_rules() {
    let mut labelled = role("ClusterRole", "agg", None, vec![]);
    labelled.metadata.labels.insert("rbac.example/workloads".into(), "true".into());
    labelled.aggregation_rule = Some(serde_json::from_str("{\"clusterRoleSelectors\": [{\"matchLabels\": {\"a\": \"b\"}}]}").unwrap());
    let snap = assemble_snapshot("t".into(), None, "{}", vec![], vec![labelled.clone()], vec![], vec![]).unwrap();
    assert_eq!(snap.cluster_roles[0].metadata.labels, labelled.metadata.labels);
    assert_eq!(snap.cluster_roles[0].aggregation_rule, labelled.aggregation_rule);
}
