//! Verified core of Kube Permission Evidence: Kubernetes RBAC access
//! evaluation over a snapshot of Roles, ClusterRoles and their bindings,
//! the checks on signed evidence packets, and the Markdown form of a
//! packet.
//!
//! Build a [`Snapshot`] and an [`AccessMatrix`] (the command-line tool reads
//! them from JSON), parse a subject with [`parse_subject`], then call
//! [`evaluate`]. The `laws` module states what holds of every evaluation.

pub mod text;
pub mod outside;
pub mod model;
pub mod subject;
pub mod rules;
pub mod evaluator;
pub mod packet;
pub mod laws;
pub mod render;
pub mod commands;

pub use evaluator::evaluate;
pub use model::{
    AccessCheck, AccessMatrix, Binding, CheckResult, EvidenceReport, EvidenceSource,
    EvidenceSummary, GrantProof, KubeList, ObjectMeta, PacketSignature, PolicyRule, RbacSubject,
    Role, RoleRef, Snapshot, SubjectIdentity,
};
pub use subject::{evaluated_groups, parse_subject};
