use kube_permission_evidence::packet::{sign, verify};
use kube_permission_evidence::{
    EvidenceReport, EvidenceSource, EvidenceSummary, SubjectIdentity,
};

fn report() -> EvidenceReport {
    EvidenceReport {
        schema_version: "kpe.evidence/v1".into(),
        generated_at: "now".into(),
        tool_version: "test".into(),
        subject: SubjectIdentity {
            kind: "User".into(),
            name: "alice".into(),
            namespace: None,
        },
        evaluated_groups: vec![],
        source: EvidenceSource {
            collected_at: "then".into(),
            context: "test".into(),
            server_version: "v1".into(),
            snapshot_sha256: "00".into(),
            role_count: 0,
            cluster_role_count: 0,
            role_binding_count: 0,
            cluster_role_binding_count: 0,
        },
        summary: EvidenceSummary {
            total: 0,
            allowed: 0,
            denied: 0,
            uncertain: 0,
        },
        checks: vec![],
        limitations: vec![],
        signature: None,
    }
}

/// The signed content: what the packet serializes to without its
/// signature. These tests stand in a fixed text for it that names the
/// subject.
fn content(report: &EvidenceReport) -> Vec<u8> {
    format!("{{\"subject\":{{\"name\":\"{}\"}}}}", report.subject.name).into_bytes()
}

const SEED: &str = "9d61b19deffd5a60ba844af492ec2cc44449c5697b326919703bac031cae7f60";

#[test]
fn signed_packet_verifies_and_tampering_fails() {
    let mut packet = report();
    let signed = content(&packet);
    sign(&mut packet, SEED, &signed).unwrap();
    verify(&packet, &content(&packet)).unwrap();
    packet.subject.name = "mallory".into();
    assert!(verify(&packet, &content(&packet)).is_err());
}
