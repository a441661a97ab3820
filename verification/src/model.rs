//! The RBAC objects, access questions and evidence packet, with their
//! mathematical views.

use std::collections::BTreeMap;
use vstd::prelude::*;
use vstd::string::*;

use crate::outside::{ascii_lowercase, to_lowercase, unicode_lowercase};
use vstd::utf8::is_ascii_chars;
use crate::text::{all_space, is_blank, str_eq};

verus! {

// ---------------------------------------------------------------------------
// Executable types
// ---------------------------------------------------------------------------

#[derive(Debug, Clone, Default)]
pub struct ObjectMeta {
    pub name: String,
    pub namespace: Option<String>,
    pub labels: BTreeMap<String, String>,
}

#[derive(Debug, Clone, Default, PartialEq, Eq)]
pub struct PolicyRule {
    pub api_groups: Vec<String>,
    pub resources: Vec<String>,
    pub verbs: Vec<String>,
    pub resource_names: Vec<String>,
    pub non_resource_urls: Vec<String>,
}

#[derive(Debug, Clone, Default)]
pub struct Role {
    pub kind: String,
    pub metadata: ObjectMeta,
    pub rules: Vec<PolicyRule>,
    pub aggregation_rule: Option<serde_json::Value>,
}

#[derive(Debug, Clone, PartialEq, Eq)]
pub struct RbacSubject {
    pub kind: String,
    pub name: String,
    pub namespace: Option<String>,
    pub api_group: Option<String>,
}

#[derive(Debug, Clone)]
pub struct RoleRef {
    pub kind: String,
    pub name: String,
    pub api_group: Option<String>,
}

#[derive(Debug, Clone)]
pub struct Binding {
    pub kind: String,
    pub metadata: ObjectMeta,
    pub subjects: Vec<RbacSubject>,
    pub role_ref: RoleRef,
}

#[derive(Debug, Clone)]
pub struct Snapshot {
    pub schema_version: String,
    pub collected_at: String,
    pub collector_version: String,
    pub context: String,
    pub server_version: String,
    pub roles: Vec<Role>,
    pub cluster_roles: Vec<Role>,
    pub role_bindings: Vec<Binding>,
    pub cluster_role_bindings: Vec<Binding>,
}

/// The `items` envelope of a `kubectl get -o json` list.
#[derive(Debug, Clone)]
pub struct KubeList<T> {
    pub items: Vec<T>,
}

#[derive(Debug, Clone)]
pub struct AccessMatrix {
    pub checks: Vec<AccessCheck>,
}

/// One bounded access question.
#[derive(Debug, Clone, PartialEq, Eq)]
pub struct AccessCheck {
    pub verb: String,
    pub api_group: String,
    pub resource: Option<String>,
    pub subresource: Option<String>,
    pub namespace: Option<String>,
    pub resource_name: Option<String>,
    pub field_selector: Option<String>,
    pub non_resource_url: Option<String>,
}

/// The subject whose access is evaluated.
#[derive(Debug, Clone, PartialEq, Eq)]
pub struct SubjectIdentity {
    pub kind: String,
    pub name: String,
    pub namespace: Option<String>,
}

#[derive(Debug, Clone)]
pub struct EvidenceReport {
    pub schema_version: String,
    pub generated_at: String,
    pub tool_version: String,
    pub subject: SubjectIdentity,
    pub evaluated_groups: Vec<String>,
    pub source: EvidenceSource,
    pub summary: EvidenceSummary,
    pub checks: Vec<CheckResult>,
    pub limitations: Vec<String>,
    pub signature: Option<PacketSignature>,
}

#[derive(Debug, Clone)]
pub struct EvidenceSource {
    pub collected_at: String,
    pub context: String,
    pub server_version: String,
    pub snapshot_sha256: String,
    pub role_count: usize,
    pub cluster_role_count: usize,
    pub role_binding_count: usize,
    pub cluster_role_binding_count: usize,
}

#[derive(Debug, Clone, Copy)]
pub struct EvidenceSummary {
    pub total: usize,
    pub allowed: usize,
    pub denied: usize,
    pub uncertain: usize,
}

#[derive(Debug, Clone)]
pub struct CheckResult {
    pub request: AccessCheck,
    pub allowed: bool,
    pub uncertain: bool,
    pub grants: Vec<GrantProof>,
}

/// One binding, subject and rule that together grant a request.
#[derive(Debug, Clone)]
pub struct GrantProof {
    pub binding_kind: String,
    pub binding_name: String,
    pub binding_namespace: Option<String>,
    pub matched_subject: RbacSubject,
    pub role_kind: String,
    pub role_name: String,
    pub rule_index: usize,
    pub rule: PolicyRule,
    pub uncertainty: Option<String>,
}

#[derive(Debug, Clone)]
pub struct PacketSignature {
    pub algorithm: String,
    pub public_key: String,
    pub signature: String,
    pub content_sha256: String,
}

// ---------------------------------------------------------------------------
// Views
// ---------------------------------------------------------------------------

pub type Text = Seq<char>;

pub open spec fn texts(v: Seq<String>) -> Seq<Text> {
    v.map_values(|s: String| s@)
}

pub open spec fn opt_text(o: Option<String>) -> Option<Text> {
    match o {
        Some(s) => Some(s@),
        None => None,
    }
}

pub struct MetaView {
    pub name: Text,
    pub namespace: Option<Text>,
}

pub struct RuleView {
    pub api_groups: Seq<Text>,
    pub resources: Seq<Text>,
    pub verbs: Seq<Text>,
    pub resource_names: Seq<Text>,
    pub non_resource_urls: Seq<Text>,
}

pub struct RoleView {
    pub kind: Text,
    pub metadata: MetaView,
    pub rules: Seq<RuleView>,
    pub aggregated: bool,
}

pub struct SubjectRefView {
    pub kind: Text,
    pub name: Text,
    pub namespace: Option<Text>,
    pub api_group: Option<Text>,
}

pub struct RoleRefView {
    pub kind: Text,
    pub name: Text,
    pub api_group: Option<Text>,
}

pub struct BindingView {
    pub kind: Text,
    pub metadata: MetaView,
    pub subjects: Seq<SubjectRefView>,
    pub role_ref: RoleRefView,
}

pub struct SnapshotView {
    pub schema_version: Text,
    pub collected_at: Text,
    pub collector_version: Text,
    pub context: Text,
    pub server_version: Text,
    pub roles: Seq<RoleView>,
    pub cluster_roles: Seq<RoleView>,
    pub role_bindings: Seq<BindingView>,
    pub cluster_role_bindings: Seq<BindingView>,
}

pub struct CheckView {
    pub verb: Text,
    pub api_group: Text,
    pub resource: Option<Text>,
    pub subresource: Option<Text>,
    pub namespace: Option<Text>,
    pub resource_name: Option<Text>,
    pub field_selector: Option<Text>,
    pub non_resource_url: Option<Text>,
}

pub struct IdentityView {
    pub kind: Text,
    pub name: Text,
    pub namespace: Option<Text>,
}

pub struct GrantView {
    pub binding_kind: Text,
    pub binding_name: Text,
    pub binding_namespace: Option<Text>,
    pub matched_subject: SubjectRefView,
    pub role_kind: Text,
    pub role_name: Text,
    pub rule_index: int,
    pub rule: RuleView,
    pub uncertainty: Option<Text>,
}

pub struct CheckResultView {
    pub request: CheckView,
    pub allowed: bool,
    pub uncertain: bool,
    pub grants: Seq<GrantView>,
}

pub struct SourceView {
    pub collected_at: Text,
    pub context: Text,
    pub server_version: Text,
    pub snapshot_sha256: Text,
    pub role_count: int,
    pub cluster_role_count: int,
    pub role_binding_count: int,
    pub cluster_role_binding_count: int,
}

pub struct SignatureView {
    pub algorithm: Text,
    pub public_key: Text,
    pub signature: Text,
    pub content_sha256: Text,
}

pub struct ReportView {
    pub schema_version: Text,
    pub generated_at: Text,
    pub tool_version: Text,
    pub subject: IdentityView,
    pub evaluated_groups: Seq<Text>,
    pub source: SourceView,
    pub summary: EvidenceSummary,
    pub checks: Seq<CheckResultView>,
    pub limitations: Seq<Text>,
    pub signature: Option<SignatureView>,
}

impl View for ObjectMeta {
    type V = MetaView;

    open spec fn view(&self) -> MetaView {
        MetaView { name: self.name@, namespace: opt_text(self.namespace) }
    }
}

impl View for PolicyRule {
    type V = RuleView;

    open spec fn view(&self) -> RuleView {
        RuleView {
            api_groups: texts(self.api_groups@),
            resources: texts(self.resources@),
            verbs: texts(self.verbs@),
            resource_names: texts(self.resource_names@),
            non_resource_urls: texts(self.non_resource_urls@),
        }
    }
}

impl View for Role {
    type V = RoleView;

    open spec fn view(&self) -> RoleView {
        RoleView {
            kind: self.kind@,
            metadata: self.metadata@,
            rules: self.rules@.map_values(|r: PolicyRule| r@),
            aggregated: self.aggregation_rule is Some,
        }
    }
}

impl View for RbacSubject {
    type V = SubjectRefView;

    open spec fn view(&self) -> SubjectRefView {
        SubjectRefView {
            kind: self.kind@,
            name: self.name@,
            namespace: opt_text(self.namespace),
            api_group: opt_text(self.api_group),
        }
    }
}

impl View for RoleRef {
    type V = RoleRefView;

    open spec fn view(&self) -> RoleRefView {
        RoleRefView { kind: self.kind@, name: self.name@, api_group: opt_text(self.api_group) }
    }
}

impl View for Binding {
    type V = BindingView;

    open spec fn view(&self) -> BindingView {
        BindingView {
            kind: self.kind@,
            metadata: self.metadata@,
            subjects: self.subjects@.map_values(|s: RbacSubject| s@),
            role_ref: self.role_ref@,
        }
    }
}

impl View for Snapshot {
    type V = SnapshotView;

    open spec fn view(&self) -> SnapshotView {
        SnapshotView {
            schema_version: self.schema_version@,
            collected_at: self.collected_at@,
            collector_version: self.collector_version@,
            context: self.context@,
            server_version: self.server_version@,
            roles: self.roles@.map_values(|r: Role| r@),
            cluster_roles: self.cluster_roles@.map_values(|r: Role| r@),
            role_bindings: self.role_bindings@.map_values(|b: Binding| b@),
            cluster_role_bindings: self.cluster_role_bindings@.map_values(|b: Binding| b@),
        }
    }
}

impl View for AccessCheck {
    type V = CheckView;

    open spec fn view(&self) -> CheckView {
        CheckView {
            verb: self.verb@,
            api_group: self.api_group@,
            resource: opt_text(self.resource),
            subresource: opt_text(self.subresource),
            namespace: opt_text(self.namespace),
            resource_name: opt_text(self.resource_name),
            field_selector: opt_text(self.field_selector),
            non_resource_url: opt_text(self.non_resource_url),
        }
    }
}

impl View for AccessMatrix {
    type V = Seq<CheckView>;

    open spec fn view(&self) -> Seq<CheckView> {
        self.checks@.map_values(|c: AccessCheck| c@)
    }
}

impl View for SubjectIdentity {
    type V = IdentityView;

    open spec fn view(&self) -> IdentityView {
        IdentityView { kind: self.kind@, name: self.name@, namespace: opt_text(self.namespace) }
    }
}

impl View for GrantProof {
    type V = GrantView;

    open spec fn view(&self) -> GrantView {
        GrantView {
            binding_kind: self.binding_kind@,
            binding_name: self.binding_name@,
            binding_namespace: opt_text(self.binding_namespace),
            matched_subject: self.matched_subject@,
            role_kind: self.role_kind@,
            role_name: self.role_name@,
            rule_index: self.rule_index as int,
            rule: self.rule@,
            uncertainty: opt_text(self.uncertainty),
        }
    }
}

impl View for CheckResult {
    type V = CheckResultView;

    open spec fn view(&self) -> CheckResultView {
        CheckResultView {
            request: self.request@,
            allowed: self.allowed,
            uncertain: self.uncertain,
            grants: self.grants@.map_values(|g: GrantProof| g@),
        }
    }
}

impl View for EvidenceSource {
    type V = SourceView;

    open spec fn view(&self) -> SourceView {
        SourceView {
            collected_at: self.collected_at@,
            context: self.context@,
            server_version: self.server_version@,
            snapshot_sha256: self.snapshot_sha256@,
            role_count: self.role_count as int,
            cluster_role_count: self.cluster_role_count as int,
            role_binding_count: self.role_binding_count as int,
            cluster_role_binding_count: self.cluster_role_binding_count as int,
        }
    }
}

impl View for PacketSignature {
    type V = SignatureView;

    open spec fn view(&self) -> SignatureView {
        SignatureView {
            algorithm: self.algorithm@,
            public_key: self.public_key@,
            signature: self.signature@,
            content_sha256: self.content_sha256@,
        }
    }
}

pub open spec fn opt_signature(o: Option<PacketSignature>) -> Option<SignatureView> {
    match o {
        Some(s) => Some(s@),
        None => None,
    }
}

impl View for EvidenceReport {
    type V = ReportView;

    open spec fn view(&self) -> ReportView {
        ReportView {
            schema_version: self.schema_version@,
            generated_at: self.generated_at@,
            tool_version: self.tool_version@,
            subject: self.subject@,
            evaluated_groups: texts(self.evaluated_groups@),
            source: self.source@,
            summary: self.summary,
            checks: self.checks@.map_values(|c: CheckResult| c@),
            limitations: texts(self.limitations@),
            signature: opt_signature(self.signature),
        }
    }
}

// ---------------------------------------------------------------------------
// Access questions
// ---------------------------------------------------------------------------

pub open spec fn non_resource_fields_message() -> Text {
    "nonResourceURL checks cannot include apiGroup, namespace, subresource, resourceName, or fieldSelector"@
}

/// What `AccessCheck::validate` answers for a question.
pub open spec fn validation(c: CheckView) -> Result<(), Text> {
    if all_space(c.verb) {
        Err("verb must not be empty"@)
    } else if c.resource is Some && c.non_resource_url is Some {
        Err("set resource or nonResourceURL, not both"@)
    } else if c.resource is None && c.non_resource_url is None {
        Err("set resource or nonResourceURL"@)
    } else if c.subresource is Some && c.resource is None {
        Err("subresource requires resource"@)
    } else if c.non_resource_url is Some && (c.api_group.len() > 0 || c.namespace is Some
        || c.resource_name is Some || c.field_selector is Some) {
        Err(non_resource_fields_message())
    } else if c.field_selector is Some && c.resource_name is None {
        Err("fieldSelector requires resourceName"@)
    } else if c.field_selector is Some && c.verb != "list"@ && c.verb != "watch"@ {
        Err("fieldSelector is supported only for list or watch checks"@)
    } else {
        Ok(())
    }
}

/// The human-readable target of a question: the URL, or
/// `resource[/subresource][.apiGroup][/resourceName]`.
pub open spec fn target_text(c: CheckView) -> Text {
    match c.non_resource_url {
        Some(url) => url,
        None => {
            let base = match c.resource {
                Some(r) => r,
                None => Seq::empty(),
            };
            let with_sub = match c.subresource {
                Some(s) => base + "/"@ + s,
                None => base,
            };
            let with_group = if c.api_group.len() > 0 {
                with_sub + "."@ + c.api_group
            } else {
                with_sub
            };
            match c.resource_name {
                Some(n) => with_group + "/"@ + n,
                None => with_group,
            }
        },
    }
}

fn message(s: &str) -> (r: Result<(), String>)
    ensures
        r == Err::<(), String>(r->Err_0),
        r->Err_0@ == s@,
{
    Err(String::from_str(s))
}

impl AccessCheck {
    /// Rejects malformed questions before evaluation.
    pub fn validate(&self) -> (r: Result<(), String>)
        ensures
            r is Ok <==> validation(self@) is Ok,
            r matches Err(e) ==> validation(self@) == Err::<(), Text>(e@),
    {
        if is_blank(self.verb.as_str()) {
            return message("verb must not be empty");
        }
        if self.resource.is_some() && self.non_resource_url.is_some() {
            return message("set resource or nonResourceURL, not both");
        }
        if self.resource.is_none() && self.non_resource_url.is_none() {
            return message("set resource or nonResourceURL");
        }
        if self.subresource.is_some() && self.resource.is_none() {
            return message("subresource requires resource");
        }
        if self.non_resource_url.is_some() && (self.api_group.unicode_len() > 0
            || self.namespace.is_some() || self.resource_name.is_some()
            || self.field_selector.is_some()) {
            return message(
                "nonResourceURL checks cannot include apiGroup, namespace, subresource, resourceName, or fieldSelector",
            );
        }
        if self.field_selector.is_some() && self.resource_name.is_none() {
            return message("fieldSelector requires resourceName");
        }
        if self.field_selector.is_some() && !str_eq(self.verb.as_str(), "list") && !str_eq(
            self.verb.as_str(),
            "watch",
        ) {
            return message("fieldSelector is supported only for list or watch checks");
        }
        Ok(())
    }

    /// The resource path or URL the question is about.
    pub fn target(&self) -> (r: String)
        ensures
            r@ == target_text(self@),
    {
        if let Some(url) = &self.non_resource_url {
            return url.clone();
        }
        let mut target = match &self.resource {
            Some(r) => r.clone(),
            None => String::new(),
        };
        if let Some(subresource) = &self.subresource {
            target.append("/");
            target.append(subresource.as_str());
        }
        if self.api_group.unicode_len() > 0 {
            target.append(".");
            target.append(self.api_group.as_str());
        }
        if let Some(name) = &self.resource_name {
            target.append("/");
            target.append(name.as_str());
        }
        target
    }
}

// ---------------------------------------------------------------------------
// Subjects
// ---------------------------------------------------------------------------

/// `kind:namespace:name` or `kind:name`, with the given text standing for
/// the kind.
pub open spec fn label_text(kind: Text, s: IdentityView) -> Text {
    match s.namespace {
        Some(ns) => kind + ":"@ + ns + ":"@ + s.name,
        None => kind + ":"@ + s.name,
    }
}

impl SubjectIdentity {
    /// The subject as written on the command line, with its kind in lower
    /// case.
    pub fn label(&self) -> (r: String)
        ensures
            r@ == label_text(unicode_lowercase(self.kind@), self@),
            is_ascii_chars(self.kind@) ==> r@ == label_text(ascii_lowercase(self.kind@), self@),
    {
        let kind = to_lowercase(self.kind.as_str());
        self.label_with_kind(kind.as_str())
    }

    /// The label, given the text that stands for the kind (the lower-cased
    /// kind, for `label`).
    pub fn label_with_kind(&self, kind: &str) -> (r: String)
        ensures
            r@ == label_text(kind@, self@),
    {
        let mut out = String::from_str(kind);
        out.append(":");
        if let Some(namespace) = &self.namespace {
            out.append(namespace.as_str());
            out.append(":");
        }
        out.append(self.name.as_str());
        proof {
            if self.namespace is Some {
                assert(out@ =~= label_text(kind@, self@));
            } else {
                assert(out@ =~= label_text(kind@, self@));
            }
        }
        out
    }
}

} // verus!

verus! {

// ---------------------------------------------------------------------------
// Copies with their views kept
// ---------------------------------------------------------------------------

pub(crate) fn opt_str(o: &Option<String>) -> (r: Option<&str>)
    ensures
        match r {
            Some(s) => opt_text(*o) == Some(s@),
            None => o is None,
        },
{
    match o {
        Some(s) => Some(s.as_str()),
        None => None,
    }
}

pub(crate) fn copy_opt(o: &Option<String>) -> (r: Option<String>)
    ensures
        opt_text(r) == opt_text(*o),
{
    match o {
        Some(s) => Some(s.clone()),
        None => None,
    }
}

pub(crate) fn copy_texts(v: &Vec<String>) -> (r: Vec<String>)
    ensures
        texts(r@) == texts(v@),
{
    let mut r: Vec<String> = Vec::new();
    let mut i: usize = 0;
    while i < v.len()
        invariant
            i <= v.len(),
            r@.len() == i,
            texts(r@) == texts(v@).take(i as int),
        decreases v.len() - i,
    {
        let c = v[i].clone();
        assert(c@ == v@[i as int]@);
        let ghost before = r@;
        r.push(c);
        assert(r@ == before.push(c));
        assert forall|k: int| 0 <= k < i + 1 implies #[trigger] texts(r@)[k] == texts(v@)[k] by {
            if k < i {
                assert(texts(before)[k] == texts(v@).take(i as int)[k]);
            }
        }
        i += 1;
        assert(texts(r@) =~= texts(v@).take(i as int));
    }
    assert(texts(v@).take(v.len() as int) =~= texts(v@));
    r
}

impl PolicyRule {
    pub(crate) fn duplicate(&self) -> (r: PolicyRule)
        ensures
            r@ == self@,
    {
        PolicyRule {
            api_groups: copy_texts(&self.api_groups),
            resources: copy_texts(&self.resources),
            verbs: copy_texts(&self.verbs),
            resource_names: copy_texts(&self.resource_names),
            non_resource_urls: copy_texts(&self.non_resource_urls),
        }
    }
}

impl RbacSubject {
    pub(crate) fn duplicate(&self) -> (r: RbacSubject)
        ensures
            r@ == self@,
    {
        RbacSubject {
            kind: self.kind.clone(),
            name: self.name.clone(),
            namespace: copy_opt(&self.namespace),
            api_group: copy_opt(&self.api_group),
        }
    }
}

impl AccessCheck {
    pub(crate) fn duplicate(&self) -> (r: AccessCheck)
        ensures
            r@ == self@,
    {
        AccessCheck {
            verb: self.verb.clone(),
            api_group: self.api_group.clone(),
            resource: copy_opt(&self.resource),
            subresource: copy_opt(&self.subresource),
            namespace: copy_opt(&self.namespace),
            resource_name: copy_opt(&self.resource_name),
            field_selector: copy_opt(&self.field_selector),
            non_resource_url: copy_opt(&self.non_resource_url),
        }
    }
}

impl SubjectIdentity {
    pub(crate) fn duplicate(&self) -> (r: SubjectIdentity)
        ensures
            r@ == self@,
    {
        SubjectIdentity {
            kind: self.kind.clone(),
            name: self.name.clone(),
            namespace: copy_opt(&self.namespace),
        }
    }
}

impl GrantProof {
    pub(crate) fn duplicate(&self) -> (r: GrantProof)
        ensures
            r@ == self@,
    {
        GrantProof {
            binding_kind: self.binding_kind.clone(),
            binding_name: self.binding_name.clone(),
            binding_namespace: copy_opt(&self.binding_namespace),
            matched_subject: self.matched_subject.duplicate(),
            role_kind: self.role_kind.clone(),
            role_name: self.role_name.clone(),
            rule_index: self.rule_index,
            rule: self.rule.duplicate(),
            uncertainty: copy_opt(&self.uncertainty),
        }
    }
}

} // verus!
