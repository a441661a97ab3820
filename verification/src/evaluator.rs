//! Evaluation of an access matrix against an RBAC snapshot: every binding,
//! subject and rule that grants each question, in a fixed order.

use vstd::prelude::*;
use vstd::string::*;

use crate::model::{
    AccessCheck, AccessMatrix, Binding, BindingView, CheckResult, CheckResultView, CheckView,
    EvidenceReport, EvidenceSource, EvidenceSummary, GrantProof, GrantView, IdentityView,
    RbacSubject, Role, RoleView, Snapshot, SnapshotView, SubjectIdentity, SubjectRefView, Text,
    opt_str, opt_text, texts, copy_opt,
};
use crate::outside::{hex_encode, hex_lower, now_rfc3339, sha256, sha256_of};
use crate::rules::{rule_admits, rule_matches, subject_named, subject_matches};
use crate::subject::{evaluated_groups, group_set, strictly_sorted};
use crate::text::{seq_lt, str_eq, str_lt};

verus! {

// ---------------------------------------------------------------------------
// Specification of the grants
// ---------------------------------------------------------------------------

pub open spec fn gviews(v: Seq<GrantProof>) -> Seq<GrantView> {
    v.map_values(|g: GrantProof| g@)
}

pub open spec fn sviews(v: Seq<RbacSubject>) -> Seq<SubjectRefView> {
    v.map_values(|s: RbacSubject| s@)
}

pub open spec fn binding_kind_text(cluster: bool) -> Text {
    if cluster {
        "ClusterRoleBinding"@
    } else {
        "RoleBinding"@
    }
}

/// The note a grant through an aggregated ClusterRole carries.
pub open spec fn aggregation_note(role_name: Text) -> Text {
    "ClusterRole "@ + role_name
        + " uses aggregationRule; evaluated rules are the API server's collected controller result"@
}

/// The grant of rule `index` of `role` through binding `b` to `subject`.
pub open spec fn grant_for(
    b: BindingView,
    role: RoleView,
    cluster: bool,
    index: int,
    subject: SubjectRefView,
) -> GrantView {
    GrantView {
        binding_kind: binding_kind_text(cluster),
        binding_name: b.metadata.name,
        binding_namespace: b.metadata.namespace,
        matched_subject: subject,
        role_kind: b.role_ref.kind,
        role_name: b.role_ref.name,
        rule_index: index,
        rule: role.rules[index],
        uncertainty: if role.aggregated {
            Some(aggregation_note(role.metadata.name))
        } else {
            None
        },
    }
}

/// The first `n` subjects of a binding that name the evaluated subject, in
/// order.
pub open spec fn matching_subjects(
    subjects: Seq<SubjectRefView>,
    n: int,
    binding_namespace: Option<Text>,
    subject: IdentityView,
    groups: Seq<Text>,
) -> Seq<SubjectRefView>
    decreases n,
{
    if n <= 0 {
        Seq::empty()
    } else {
        let prev = matching_subjects(subjects, n - 1, binding_namespace, subject, groups);
        if subject_named(subjects[n - 1], binding_namespace, subject, groups) {
            prev.push(subjects[n - 1])
        } else {
            prev
        }
    }
}

/// The first element satisfying `p`.
pub open spec fn first_match<T>(s: Seq<T>, p: spec_fn(T) -> bool) -> Option<T>
    decreases s.len(),
{
    if s.len() == 0 {
        None
    } else if p(s[0]) {
        Some(s[0])
    } else {
        first_match(s.drop_first(), p)
    }
}

/// A Role of that name in that namespace.
pub open spec fn role_named(name: Text, namespace: Option<Text>) -> spec_fn(RoleView) -> bool {
    |r: RoleView| r.metadata.name == name && r.metadata.namespace == namespace
}

/// A ClusterRole of that name.
pub open spec fn cluster_role_named(name: Text) -> spec_fn(RoleView) -> bool {
    |r: RoleView| r.metadata.name == name
}

/// The role a binding refers to: a `Role` in the binding's namespace (only
/// through a RoleBinding) or a `ClusterRole`; the first such in the
/// snapshot.
pub open spec fn bound_role(snap: SnapshotView, b: BindingView, cluster: bool) -> Option<RoleView> {
    if b.role_ref.kind == "Role"@ && !cluster {
        first_match(snap.roles, role_named(b.role_ref.name, b.metadata.namespace))
    } else if b.role_ref.kind == "ClusterRole"@ {
        first_match(snap.cluster_roles, cluster_role_named(b.role_ref.name))
    } else {
        None
    }
}

/// Grants from the first `n` rules of the role: for each rule that matches,
/// one grant per matching subject.
pub open spec fn rule_grants(
    b: BindingView,
    role: RoleView,
    cluster: bool,
    matched: Seq<SubjectRefView>,
    req: CheckView,
    n: int,
) -> Seq<GrantView>
    decreases n,
{
    if n <= 0 {
        Seq::empty()
    } else {
        let prev = rule_grants(b, role, cluster, matched, req, n - 1);
        if rule_admits(role.rules[n - 1], req) {
            prev + matched.map_values(|m: SubjectRefView| grant_for(b, role, cluster, n - 1, m))
        } else {
            prev
        }
    }
}

/// The grants one binding gives. A RoleBinding never grants a
/// non-resource URL, and only grants in its own namespace.
pub open spec fn binding_grants(
    snap: SnapshotView,
    subject: IdentityView,
    groups: Seq<Text>,
    req: CheckView,
    b: BindingView,
    cluster: bool,
) -> Seq<GrantView> {
    if !cluster && req.non_resource_url is Some {
        Seq::empty()
    } else if !cluster && req.namespace != b.metadata.namespace {
        Seq::empty()
    } else {
        let matched = matching_subjects(
            b.subjects,
            b.subjects.len() as int,
            b.metadata.namespace,
            subject,
            groups,
        );
        if matched.len() == 0 {
            Seq::empty()
        } else {
            match bound_role(snap, b, cluster) {
                None => Seq::empty(),
                Some(role) => rule_grants(b, role, cluster, matched, req, role.rules.len() as int),
            }
        }
    }
}

/// The grants of the first `n` bindings, in order.
pub open spec fn bindings_grants(
    snap: SnapshotView,
    subject: IdentityView,
    groups: Seq<Text>,
    req: CheckView,
    bindings: Seq<BindingView>,
    cluster: bool,
    n: int,
) -> Seq<GrantView>
    decreases n,
{
    if n <= 0 {
        Seq::empty()
    } else {
        bindings_grants(snap, subject, groups, req, bindings, cluster, n - 1) + binding_grants(
            snap,
            subject,
            groups,
            req,
            bindings[n - 1],
            cluster,
        )
    }
}

/// Every grant path for a question: RoleBindings first, then
/// ClusterRoleBindings, each in snapshot order.
pub open spec fn collected_grants(
    snap: SnapshotView,
    subject: IdentityView,
    groups: Seq<Text>,
    req: CheckView,
) -> Seq<GrantView> {
    bindings_grants(snap, subject, groups, req, snap.role_bindings, false, snap.role_bindings.len() as int)
        + bindings_grants(
        snap,
        subject,
        groups,
        req,
        snap.cluster_role_bindings,
        true,
        snap.cluster_role_bindings.len() as int,
    )
}

// ---------------------------------------------------------------------------
// Order of the grants
// ---------------------------------------------------------------------------

/// `None` first, then by text.
pub open spec fn opt_text_lt(a: Option<Text>, b: Option<Text>) -> bool {
    match a {
        None => b is Some,
        Some(x) => match b {
            Some(y) => seq_lt(x, y),
            None => false,
        },
    }
}

/// Strict order on the key (binding kind, binding namespace, binding name,
/// role name, rule index).
pub open spec fn grant_before(a: GrantView, b: GrantView) -> bool {
    if a.binding_kind != b.binding_kind {
        seq_lt(a.binding_kind, b.binding_kind)
    } else if a.binding_namespace != b.binding_namespace {
        opt_text_lt(a.binding_namespace, b.binding_namespace)
    } else if a.binding_name != b.binding_name {
        seq_lt(a.binding_name, b.binding_name)
    } else if a.role_name != b.role_name {
        seq_lt(a.role_name, b.role_name)
    } else {
        a.rule_index < b.rule_index
    }
}

/// Where a stable insertion puts `g`: after every element whose key is not
/// greater.
pub open spec fn insert_position(s: Seq<GrantView>, g: GrantView) -> int
    decreases s.len(),
{
    if s.len() == 0 {
        0
    } else if grant_before(g, s[0]) {
        0
    } else {
        1 + insert_position(s.drop_first(), g)
    }
}

pub proof fn lemma_insert_position_bounds(s: Seq<GrantView>, g: GrantView)
    ensures
        0 <= insert_position(s, g) <= s.len(),
    decreases s.len(),
{
    if s.len() > 0 && !grant_before(g, s[0]) {
        lemma_insert_position_bounds(s.drop_first(), g);
    }
}

/// The grants stably sorted by key (what `sort_by` on the key gives).
pub open spec fn sorted_grants(s: Seq<GrantView>) -> Seq<GrantView>
    decreases s.len(),
{
    if s.len() == 0 {
        s
    } else {
        let r = sorted_grants(s.drop_last());
        r.insert(insert_position(r, s.last()), s.last())
    }
}

// ---------------------------------------------------------------------------
// Specification of a check result and of the report
// ---------------------------------------------------------------------------

pub open spec fn any_uncertain(grants: Seq<GrantView>) -> bool {
    exists|i: int| 0 <= i < grants.len() && (#[trigger] grants[i]).uncertainty is Some
}

/// The result for one question: allowed when some grant path exists,
/// uncertain when some grant passes through an aggregated ClusterRole.
pub open spec fn check_outcome(
    snap: SnapshotView,
    subject: IdentityView,
    groups: Seq<Text>,
    req: CheckView,
) -> CheckResultView {
    let grants = sorted_grants(collected_grants(snap, subject, groups, req));
    CheckResultView {
        request: req,
        allowed: grants.len() > 0,
        uncertain: any_uncertain(grants),
        grants: grants,
    }
}

pub open spec fn allowed_count(results: Seq<CheckResultView>, n: int) -> int
    decreases n,
{
    if n <= 0 {
        0
    } else {
        allowed_count(results, n - 1) + if results[n - 1].allowed {
            1int
        } else {
            0
        }
    }
}

pub open spec fn uncertain_count(results: Seq<CheckResultView>, n: int) -> int
    decreases n,
{
    if n <= 0 {
        0
    } else {
        uncertain_count(results, n - 1) + if results[n - 1].uncertain {
            1int
        } else {
            0
        }
    }
}

pub open spec fn limitation_texts() -> Seq<Text> {
    seq![
        "This packet evaluates Kubernetes RBAC objects only; webhook, Node, and other authorizers are not represented."@,
        "External identity-provider group membership is included only when supplied with --as-group."@,
        "Aggregated ClusterRole rules are controller-resolved and marked uncertain because results can vary with installed APIs and Kubernetes version."@,
        "Rules constrained by resourceNames never grant top-level create or deletecollection checks; named list/watch checks require a matching metadata.name fieldSelector."@,
    ]
}

pub open spec fn tool_version() -> Text {
    "0.1.0"@
}

// ---------------------------------------------------------------------------
// Executable evaluation
// ---------------------------------------------------------------------------

fn matched_subjects(
    binding: &Binding,
    subject: &SubjectIdentity,
    groups: &[String],
) -> (r: Vec<RbacSubject>)
    ensures
        sviews(r@) == matching_subjects(
            binding@.subjects,
            binding@.subjects.len() as int,
            binding@.metadata.namespace,
            subject@,
            texts(groups@),
        ),
{
    let mut r: Vec<RbacSubject> = Vec::new();
    let ns = opt_str(&binding.metadata.namespace);
    let ghost bns: Option<Text> = match ns {
        Some(x) => Some(x@),
        None => None,
    };
    assert(bns == binding@.metadata.namespace);
    let mut i: usize = 0;
    while i < binding.subjects.len()
        invariant
            i <= binding.subjects.len(),
            bns == binding@.metadata.namespace,
            bns == (match ns {
                Some(x) => Some(x@),
                None => None::<Text>,
            }),
            sviews(r@) == matching_subjects(
                binding@.subjects,
                i as int,
                bns,
                subject@,
                texts(groups@),
            ),
        decreases binding.subjects.len() - i,
    {
        let candidate = &binding.subjects[i];
        assert(binding@.subjects[i as int] == candidate@);
        let ghost before = r@;
        if subject_matches(candidate, ns, subject, groups) {
            r.push(candidate.duplicate());
            assert(sviews(r@) =~= sviews(before).push(candidate@));
        }
        i += 1;
    }
    r
}

/// Index of the role the binding refers to.
fn find_bound_role(snapshot: &Snapshot, binding: &Binding, cluster: bool) -> (r: Option<
    (bool, usize),
>)
    ensures
        match r {
            None => bound_role(snapshot@, binding@, cluster) is None,
            Some((cluster_role, i)) => {
                &&& cluster_role ==> i < snapshot.cluster_roles.len()
                    && bound_role(snapshot@, binding@, cluster) == Some(
                    snapshot.cluster_roles@[i as int]@,
                )
                &&& !cluster_role ==> i < snapshot.roles.len() && bound_role(
                    snapshot@,
                    binding@,
                    cluster,
                ) == Some(snapshot.roles@[i as int]@)
            },
        },
{
    let kind = binding.role_ref.kind.as_str();
    let name = binding.role_ref.name.as_str();
    if str_eq(kind, "Role") && !cluster {
        let ns = opt_str(&binding.metadata.namespace);
        let ghost p = role_named(binding@.role_ref.name, binding@.metadata.namespace);
        let ghost roles = snapshot@.roles;
        let mut i: usize = 0;
        assert(roles.skip(0) =~= roles);
        while i < snapshot.roles.len()
            invariant
                roles == snapshot@.roles,
                roles.len() == snapshot.roles.len(),
                i <= snapshot.roles.len(),
                p == role_named(binding@.role_ref.name, binding@.metadata.namespace),
                first_match(roles, p) == first_match(roles.skip(i as int), p),
                binding@.metadata.namespace == (match ns {
                    Some(x) => Some(x@),
                    None => None::<Text>,
                }),
                name@ == binding@.role_ref.name,
                binding@.role_ref.kind == "Role"@,
                !cluster,
            decreases snapshot.roles.len() - i,
        {
            let role = &snapshot.roles[i];
            assert(roles[i as int] == role@);
            assert(roles.skip(i as int)[0] == role@);
            let same_name = str_eq(role.metadata.name.as_str(), name);
            let same_ns = match (&role.metadata.namespace, ns) {
                (Some(a), Some(b)) => str_eq(a.as_str(), b),
                (None, None) => true,
                _ => false,
            };
            if same_name && same_ns {
                assert(p(role@));
                return Some((false, i));
            }
            assert(!p(role@));
            assert(roles.skip(i as int).drop_first() =~= roles.skip(i + 1));
            i += 1;
        }
        None
    } else if str_eq(kind, "ClusterRole") {
        let ghost p = cluster_role_named(binding@.role_ref.name);
        let ghost roles = snapshot@.cluster_roles;
        let mut i: usize = 0;
        assert(roles.skip(0) =~= roles);
        while i < snapshot.cluster_roles.len()
            invariant
                roles == snapshot@.cluster_roles,
                roles.len() == snapshot.cluster_roles.len(),
                i <= snapshot.cluster_roles.len(),
                p == cluster_role_named(binding@.role_ref.name),
                first_match(roles, p) == first_match(roles.skip(i as int), p),
                name@ == binding@.role_ref.name,
                binding@.role_ref.kind == "ClusterRole"@,
                !(binding@.role_ref.kind == "Role"@ && !cluster),
            decreases snapshot.cluster_roles.len() - i,
        {
            let role = &snapshot.cluster_roles[i];
            assert(roles[i as int] == role@);
            assert(roles.skip(i as int)[0] == role@);
            if str_eq(role.metadata.name.as_str(), name) {
                assert(p(role@));
                return Some((true, i));
            }
            assert(!p(role@));
            assert(roles.skip(i as int).drop_first() =~= roles.skip(i + 1));
            i += 1;
        }
        None
    } else {
        None
    }
}

fn aggregation_note_exec(role_name: &str) -> (r: String)
    ensures
        r@ == aggregation_note(role_name@),
{
    let mut note = String::from_str("ClusterRole ");
    note.append(role_name);
    note.append(
        " uses aggregationRule; evaluated rules are the API server's collected controller result",
    );
    note
}

/// Appends the grants that one binding gives for the question.
fn evaluate_binding(
    snapshot: &Snapshot,
    subject: &SubjectIdentity,
    groups: &[String],
    request: &AccessCheck,
    binding: &Binding,
    cluster: bool,
    grants: &mut Vec<GrantProof>,
)
    ensures
        gviews(final(grants)@) == gviews(old(grants)@) + binding_grants(
            snapshot@,
            subject@,
            texts(groups@),
            request@,
            binding@,
            cluster,
        ),
{
    let ghost base = gviews(grants@);
    // Non-resource URLs have no namespace: Kubernetes only applies those
    // rules through a ClusterRoleBinding.
    if !cluster && request.non_resource_url.is_some() {
        assert(gviews(grants@) =~= base + Seq::<GrantView>::empty());
        return;
    }
    if !cluster {
        let same = match (&request.namespace, &binding.metadata.namespace) {
            (Some(a), Some(b)) => str_eq(a.as_str(), b.as_str()),
            (None, None) => true,
            _ => false,
        };
        if !same {
            assert(gviews(grants@) =~= base + Seq::<GrantView>::empty());
            return;
        }
    }
    let matched = matched_subjects(binding, subject, groups);
    if matched.len() == 0 {
        assert(gviews(grants@) =~= base + Seq::<GrantView>::empty());
        return;
    }
    let found = find_bound_role(snapshot, binding, cluster);
    let role: &Role = match found {
        None => {
            assert(gviews(grants@) =~= base + Seq::<GrantView>::empty());
            return;
        },
        Some((true, i)) => &snapshot.cluster_roles[i],
        Some((false, i)) => &snapshot.roles[i],
    };
    let ghost rv = role@;
    let ghost ms = sviews(matched@);
    assert(bound_role(snapshot@, binding@, cluster) == Some(rv));
    let note: Option<String> = if role.aggregation_rule.is_some() {
        Some(aggregation_note_exec(role.metadata.name.as_str()))
    } else {
        None
    };
    let kind_text = if cluster {
        "ClusterRoleBinding"
    } else {
        "RoleBinding"
    };
    let mut j: usize = 0;
    while j < role.rules.len()
        invariant
            j <= role.rules.len(),
            rv == role@,
            ms == sviews(matched@),
            opt_text(note) == (if rv.aggregated {
                Some(aggregation_note(rv.metadata.name))
            } else {
                None::<Text>
            }),
            kind_text@ == binding_kind_text(cluster),
            gviews(grants@) == base + rule_grants(binding@, rv, cluster, ms, request@, j as int),
        decreases role.rules.len() - j,
    {
        let rule = &role.rules[j];
        assert(rv.rules[j as int] == rule@);
        if rule_matches(rule, request) {
            let ghost start = gviews(grants@);
            let mut k: usize = 0;
            while k < matched.len()
                invariant
                    k <= matched.len(),
                    j < role.rules.len(),
                    rv == role@,
                    rv.rules[j as int] == rule@,
                    ms == sviews(matched@),
                    opt_text(note) == (if rv.aggregated {
                        Some(aggregation_note(rv.metadata.name))
                    } else {
                        None::<Text>
                    }),
                    kind_text@ == binding_kind_text(cluster),
                    gviews(grants@) == start + ms.take(k as int).map_values(
                        |m: SubjectRefView| grant_for(binding@, rv, cluster, j as int, m),
                    ),
                decreases matched.len() - k,
            {
                let grant = GrantProof {
                    binding_kind: String::from_str(kind_text),
                    binding_name: binding.metadata.name.clone(),
                    binding_namespace: copy_opt(&binding.metadata.namespace),
                    matched_subject: matched[k].duplicate(),
                    role_kind: binding.role_ref.kind.clone(),
                    role_name: binding.role_ref.name.clone(),
                    rule_index: j,
                    rule: rule.duplicate(),
                    uncertainty: copy_opt(&note),
                };
                assert(grant@ == grant_for(binding@, rv, cluster, j as int, ms[k as int]));
                let ghost before = gviews(grants@);
                grants.push(grant);
                assert(gviews(grants@) =~= before.push(grant@));
                assert(ms.take(k + 1) =~= ms.take(k as int).push(ms[k as int]));
                k += 1;
                assert(gviews(grants@) =~= start + ms.take(k as int).map_values(
                    |m: SubjectRefView| grant_for(binding@, rv, cluster, j as int, m),
                ));
            }
            assert(ms.take(matched.len() as int) =~= ms);
        }
        j += 1;
        assert(gviews(grants@) =~= base + rule_grants(binding@, rv, cluster, ms, request@, j as int));
    }
}

/// Appends the grants that the bindings give for the question.
fn evaluate_bindings(
    snapshot: &Snapshot,
    subject: &SubjectIdentity,
    groups: &[String],
    request: &AccessCheck,
    bindings: &Vec<Binding>,
    cluster: bool,
    grants: &mut Vec<GrantProof>,
)
    ensures
        gviews(final(grants)@) == gviews(old(grants)@) + bindings_grants(
            snapshot@,
            subject@,
            texts(groups@),
            request@,
            bindings@.map_values(|b: Binding| b@),
            cluster,
            bindings.len() as int,
        ),
{
    let ghost base = gviews(grants@);
    let ghost bs = bindings@.map_values(|b: Binding| b@);
    let mut i: usize = 0;
    assert(gviews(grants@) =~= base + Seq::<GrantView>::empty());
    while i < bindings.len()
        invariant
            i <= bindings.len(),
            bs == bindings@.map_values(|b: Binding| b@),
            gviews(grants@) == base + bindings_grants(
                snapshot@,
                subject@,
                texts(groups@),
                request@,
                bs,
                cluster,
                i as int,
            ),
        decreases bindings.len() - i,
    {
        assert(bs[i as int] == bindings@[i as int]@);
        evaluate_binding(snapshot, subject, groups, request, &bindings[i], cluster, grants);
        i += 1;
        assert(gviews(grants@) =~= base + bindings_grants(
            snapshot@,
            subject@,
            texts(groups@),
            request@,
            bs,
            cluster,
            i as int,
        ));
    }
}

fn opt_text_lt_exec(a: &Option<String>, b: &Option<String>) -> (r: bool)
    ensures
        r == opt_text_lt(opt_text(*a), opt_text(*b)),
{
    match (a, b) {
        (None, Some(_)) => true,
        (Some(x), Some(y)) => str_lt(x.as_str(), y.as_str()),
        _ => false,
    }
}

fn opt_text_eq_exec(a: &Option<String>, b: &Option<String>) -> (r: bool)
    ensures
        r == (opt_text(*a) == opt_text(*b)),
{
    match (a, b) {
        (None, None) => true,
        (Some(x), Some(y)) => str_eq(x.as_str(), y.as_str()),
        _ => false,
    }
}

fn grant_before_exec(a: &GrantProof, b: &GrantProof) -> (r: bool)
    ensures
        r == grant_before(a@, b@),
{
    if !str_eq(a.binding_kind.as_str(), b.binding_kind.as_str()) {
        str_lt(a.binding_kind.as_str(), b.binding_kind.as_str())
    } else if !opt_text_eq_exec(&a.binding_namespace, &b.binding_namespace) {
        opt_text_lt_exec(&a.binding_namespace, &b.binding_namespace)
    } else if !str_eq(a.binding_name.as_str(), b.binding_name.as_str()) {
        str_lt(a.binding_name.as_str(), b.binding_name.as_str())
    } else if !str_eq(a.role_name.as_str(), b.role_name.as_str()) {
        str_lt(a.role_name.as_str(), b.role_name.as_str())
    } else {
        a.rule_index < b.rule_index
    }
}

fn find_insert_position(sorted: &Vec<GrantProof>, g: &GrantProof) -> (r: usize)
    ensures
        r == insert_position(gviews(sorted@), g@),
        r <= sorted.len(),
{
    let ghost s = gviews(sorted@);
    let mut i: usize = 0;
    assert(s.skip(0) =~= s);
    while i < sorted.len() && !grant_before_exec(g, &sorted[i])
        invariant
            s == gviews(sorted@),
            i <= sorted.len(),
            insert_position(s, g@) == i + insert_position(s.skip(i as int), g@),
        decreases sorted.len() - i,
    {
        assert(s.skip(i as int)[0] == sorted@[i as int]@);
        assert(s.skip(i as int).drop_first() =~= s.skip(i + 1));
        i += 1;
    }
    if i < sorted.len() {
        assert(s.skip(i as int)[0] == sorted@[i as int]@);
    }
    i
}

/// Stable sort by (binding kind, binding namespace, binding name, role
/// name, rule index).
fn sort_grants(grants: &Vec<GrantProof>) -> (r: Vec<GrantProof>)
    ensures
        gviews(r@) == sorted_grants(gviews(grants@)),
{
    let ghost all = gviews(grants@);
    let mut sorted: Vec<GrantProof> = Vec::new();
    let mut i: usize = 0;
    assert(all.take(0) =~= Seq::<GrantView>::empty());
    while i < grants.len()
        invariant
            i <= grants.len(),
            all == gviews(grants@),
            gviews(sorted@) == sorted_grants(all.take(i as int)),
        decreases grants.len() - i,
    {
        let g = grants[i].duplicate();
        let pos = find_insert_position(&sorted, &g);
        let ghost before = gviews(sorted@);
        sorted.insert(pos, g);
        proof {
            lemma_insert_position_bounds(before, g@);
            assert(gviews(sorted@) =~= before.insert(pos as int, g@));
            let next = all.take(i + 1);
            assert(next.drop_last() =~= all.take(i as int));
            assert(next.last() == g@);
        }
        i += 1;
    }
    assert(all.take(grants.len() as int) =~= all);
    sorted
}

fn evaluate_check(
    snapshot: &Snapshot,
    subject: &SubjectIdentity,
    groups: &[String],
    request: &AccessCheck,
) -> (r: CheckResult)
    ensures
        r@ == check_outcome(snapshot@, subject@, texts(groups@), request@),
{
    let mut grants: Vec<GrantProof> = Vec::new();
    evaluate_bindings(snapshot, subject, groups, request, &snapshot.role_bindings, false, &mut grants);
    evaluate_bindings(
        snapshot,
        subject,
        groups,
        request,
        &snapshot.cluster_role_bindings,
        true,
        &mut grants,
    );
    assert(gviews(grants@) =~= collected_grants(snapshot@, subject@, texts(groups@), request@));
    let sorted = sort_grants(&grants);
    let ghost gs = gviews(sorted@);
    let mut uncertain = false;
    let mut i: usize = 0;
    while i < sorted.len()
        invariant
            i <= sorted.len(),
            gs == gviews(sorted@),
            uncertain == exists|j: int| 0 <= j < i && (#[trigger] gs[j]).uncertainty is Some,
        decreases sorted.len() - i,
    {
        assert(gs[i as int] == sorted@[i as int]@);
        if sorted[i].uncertainty.is_some() {
            uncertain = true;
        }
        i += 1;
    }
    CheckResult {
        allowed: sorted.len() > 0,
        uncertain: uncertain,
        request: request.duplicate(),
        grants: sorted,
    }
}

fn push_text(v: &mut Vec<String>, s: &str)
    ensures
        texts(final(v)@) == texts(old(v)@).push(s@),
{
    let ghost before = v@;
    v.push(String::from_str(s));
    assert(texts(v@) =~= texts(before).push(s@));
}

/// Evaluates every question of the matrix for the subject, counting it in
/// the asserted groups, against the snapshot. `snapshot_json` is the
/// snapshot's JSON serialization, whose SHA-256 the report records; the
/// recorded digest describes the snapshot only when the caller passes that
/// snapshot's own serialization.
pub fn evaluate(
    snapshot: &Snapshot,
    subject: &SubjectIdentity,
    asserted_groups: &[String],
    matrix: &AccessMatrix,
    snapshot_json: &[u8],
) -> (r: EvidenceReport)
    ensures
        strictly_sorted(r@.evaluated_groups),
        forall|g: Text|
            r@.evaluated_groups.contains(g) <==> group_set(subject@, texts(asserted_groups@)).contains(g),
        r@.checks.len() == matrix@.len(),
        forall|i: int|
            0 <= i < matrix@.len() ==> #[trigger] r@.checks[i] == check_outcome(
                snapshot@,
                subject@,
                r@.evaluated_groups,
                matrix@[i],
            ),
        r.summary.total == matrix@.len(),
        r.summary.allowed == allowed_count(r@.checks, r@.checks.len() as int),
        r.summary.denied == r.summary.total - r.summary.allowed,
        r.summary.uncertain == uncertain_count(r@.checks, r@.checks.len() as int),
        r@.schema_version == "kpe.evidence/v1"@,
        r@.tool_version == tool_version(),
        r@.subject == subject@,
        r@.source.collected_at == snapshot@.collected_at,
        r@.source.context == snapshot@.context,
        r@.source.server_version == snapshot@.server_version,
        r@.source.snapshot_sha256 == hex_lower(sha256_of(snapshot_json@)),
        r@.source.role_count == snapshot.roles.len(),
        r@.source.cluster_role_count == snapshot.cluster_roles.len(),
        r@.source.role_binding_count == snapshot.role_bindings.len(),
        r@.source.cluster_role_binding_count == snapshot.cluster_role_bindings.len(),
        r@.limitations == limitation_texts(),
        r.signature is None,
{
    let groups = evaluated_groups(subject, asserted_groups);
    let ghost gs = texts(groups@);
    let mut checks: Vec<CheckResult> = Vec::new();
    let ghost reqs = matrix@;
    let mut i: usize = 0;
    while i < matrix.checks.len()
        invariant
            i <= matrix.checks.len(),
            reqs == matrix@,
            gs == texts(groups@),
            checks@.len() == i,
            forall|j: int|
                0 <= j < i ==> #[trigger] checks@[j]@ == check_outcome(snapshot@, subject@, gs, reqs[j]),
        decreases matrix.checks.len() - i,
    {
        assert(reqs[i as int] == matrix.checks@[i as int]@);
        let result = evaluate_check(snapshot, subject, groups.as_slice(), &matrix.checks[i]);
        checks.push(result);
        i += 1;
    }
    let ghost cs = checks@.map_values(|c: CheckResult| c@);
    let mut allowed: usize = 0;
    let mut uncertain: usize = 0;
    let mut k: usize = 0;
    while k < checks.len()
        invariant
            k <= checks.len(),
            cs == checks@.map_values(|c: CheckResult| c@),
            allowed == allowed_count(cs, k as int),
            uncertain == uncertain_count(cs, k as int),
            allowed <= k,
            uncertain <= k,
        decreases checks.len() - k,
    {
        assert(cs[k as int] == checks@[k as int]@);
        if checks[k].allowed {
            allowed += 1;
        }
        if checks[k].uncertain {
            uncertain += 1;
        }
        k += 1;
    }
    let total = checks.len();
    let digest = sha256(snapshot_json);
    let mut limitations: Vec<String> = Vec::new();
    push_text(
        &mut limitations,
        "This packet evaluates Kubernetes RBAC objects only; webhook, Node, and other authorizers are not represented.",
    );
    push_text(
        &mut limitations,
        "External identity-provider group membership is included only when supplied with --as-group.",
    );
    push_text(
        &mut limitations,
        "Aggregated ClusterRole rules are controller-resolved and marked uncertain because results can vary with installed APIs and Kubernetes version.",
    );
    push_text(
        &mut limitations,
        "Rules constrained by resourceNames never grant top-level create or deletecollection checks; named list/watch checks require a matching metadata.name fieldSelector.",
    );
    assert(texts(limitations@) =~= limitation_texts());
    let report = EvidenceReport {
        schema_version: String::from_str("kpe.evidence/v1"),
        generated_at: now_rfc3339(),
        tool_version: String::from_str("0.1.0"),
        subject: subject.duplicate(),
        evaluated_groups: groups,
        source: EvidenceSource {
            collected_at: snapshot.collected_at.clone(),
            context: snapshot.context.clone(),
            server_version: snapshot.server_version.clone(),
            snapshot_sha256: hex_encode(digest.as_slice()),
            role_count: snapshot.roles.len(),
            cluster_role_count: snapshot.cluster_roles.len(),
            role_binding_count: snapshot.role_bindings.len(),
            cluster_role_binding_count: snapshot.cluster_role_bindings.len(),
        },
        summary: EvidenceSummary {
            total: total,
            allowed: allowed,
            denied: total - allowed,
            uncertain: uncertain,
        },
        checks: checks,
        limitations: limitations,
        signature: None,
    };
    proof {
        assert forall|i: int| 0 <= i < matrix@.len() implies #[trigger] report@.checks[i]
            == check_outcome(snapshot@, subject@, report@.evaluated_groups, matrix@[i]) by {
            assert(report@.checks[i] == report.checks@[i]@);
        }
    }
    report
}

} // verus!
