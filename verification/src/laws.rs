//! Properties of the evaluation that hold for every snapshot, subject and
//! question.

use vstd::prelude::*;

use crate::evaluator::{
    allowed_count, binding_grants, bindings_grants, bound_role, check_outcome, cluster_role_named,
    collected_grants, first_match, grant_before, grant_for, insert_position, matching_subjects,
    opt_text_lt, role_named, rule_grants, sorted_grants, uncertain_count,
};
use crate::subject::group_set;
use crate::model::{
    BindingView, CheckResultView, CheckView, GrantView, IdentityView, RoleView, RuleView,
    SnapshotView, SubjectRefView, Text,
};
use crate::model::{label_text, validation, ReportView};
use crate::render::{escape_inline_text, head_text, markdown_text, signature_lines, summary_line};
use crate::rules::{
    resource_entry_matches, rule_admits, selector_selects, subject_named, url_pattern_covers,
};
use crate::text::{
    all_space, decimal, has_char, is_space, lemma_seq_lt_asymmetric, lemma_seq_lt_irreflexive, lemma_seq_lt_total,
    lemma_seq_lt_transitive, seq_lt,
};

verus! {

// ---------------------------------------------------------------------------
// The order on grants
// ---------------------------------------------------------------------------

/// Two grants have the same sort key.
pub open spec fn same_key(a: GrantView, b: GrantView) -> bool {
    &&& a.binding_kind == b.binding_kind
    &&& a.binding_namespace == b.binding_namespace
    &&& a.binding_name == b.binding_name
    &&& a.role_name == b.role_name
    &&& a.rule_index == b.rule_index
}

proof fn lemma_text_order(a: Text, b: Text, c: Text)
    ensures
        !seq_lt(a, a),
        !(seq_lt(a, b) && seq_lt(b, a)),
        a != b ==> seq_lt(a, b) || seq_lt(b, a),
        seq_lt(a, b) && seq_lt(b, c) ==> seq_lt(a, c),
{
    lemma_seq_lt_irreflexive(a);
    lemma_seq_lt_asymmetric(a, b);
    lemma_seq_lt_total(a, b);
    if seq_lt(a, b) && seq_lt(b, c) {
        lemma_seq_lt_transitive(a, b, c);
    }
}

proof fn lemma_opt_text_order(a: Option<Text>, b: Option<Text>, c: Option<Text>)
    ensures
        !opt_text_lt(a, a),
        !(opt_text_lt(a, b) && opt_text_lt(b, a)),
        a != b ==> opt_text_lt(a, b) || opt_text_lt(b, a),
        opt_text_lt(a, b) && opt_text_lt(b, c) ==> opt_text_lt(a, c),
{
    let e = Seq::<char>::empty();
    lemma_text_order(a.unwrap_or(e), b.unwrap_or(e), c.unwrap_or(e));
    lemma_text_order(a.unwrap_or(e), a.unwrap_or(e), a.unwrap_or(e));
    lemma_text_order(b.unwrap_or(e), a.unwrap_or(e), c.unwrap_or(e));
}

proof fn lemma_grant_order(a: GrantView, b: GrantView, c: GrantView)
    ensures
        !grant_before(a, a),
        !(grant_before(a, b) && grant_before(b, a)),
        grant_before(a, b) || grant_before(b, a) || same_key(a, b),
        grant_before(a, b) && grant_before(b, c) ==> grant_before(a, c),
        same_key(a, b) && grant_before(b, c) ==> grant_before(a, c),
        grant_before(a, b) && same_key(b, c) ==> grant_before(a, c),
{
    lemma_text_order(a.binding_kind, b.binding_kind, c.binding_kind);
    lemma_text_order(a.binding_kind, a.binding_kind, a.binding_kind);
    lemma_opt_text_order(a.binding_namespace, b.binding_namespace, c.binding_namespace);
    lemma_opt_text_order(a.binding_namespace, a.binding_namespace, a.binding_namespace);
    lemma_text_order(a.binding_name, b.binding_name, c.binding_name);
    lemma_text_order(a.binding_name, a.binding_name, a.binding_name);
    lemma_text_order(a.role_name, b.role_name, c.role_name);
    lemma_text_order(a.role_name, a.role_name, a.role_name);
}

/// Not after, in key order.
pub open spec fn not_after(a: GrantView, b: GrantView) -> bool {
    !grant_before(b, a)
}

/// Every grant's key is not greater than any later grant's key.
pub open spec fn grants_in_key_order(s: Seq<GrantView>) -> bool {
    forall|i: int, j: int| 0 <= i < j < s.len() ==> not_after(#[trigger] s[i], #[trigger] s[j])
}

proof fn lemma_insert_position(s: Seq<GrantView>, g: GrantView)
    ensures
        0 <= insert_position(s, g) <= s.len(),
        forall|i: int| 0 <= i < insert_position(s, g) ==> !grant_before(g, #[trigger] s[i]),
        insert_position(s, g) < s.len() ==> grant_before(g, s[insert_position(s, g)]),
    decreases s.len(),
{
    if s.len() > 0 && !grant_before(g, s[0]) {
        lemma_insert_position(s.drop_first(), g);
        assert forall|i: int| 0 <= i < insert_position(s, g) implies !grant_before(g, #[trigger] s[i]) by {
            if i > 0 {
                assert(s[i] == s.drop_first()[i - 1]);
            }
        }
    }
}

proof fn lemma_insert_keeps_order(s: Seq<GrantView>, g: GrantView)
    requires
        grants_in_key_order(s),
    ensures
        grants_in_key_order(s.insert(insert_position(s, g), g)),
{
    lemma_insert_position(s, g);
    let p = insert_position(s, g);
    let t = s.insert(p, g);
    assert forall|i: int, j: int| 0 <= i < j < t.len() implies not_after(#[trigger] t[i], #[trigger] t[j]) by {
        if j == p {
            assert(t[i] == s[i]);
        } else if i == p {
            assert(t[j] == s[j - 1]);
            lemma_grant_order(s[j - 1], g, s[p]);
            if j - 1 > p {
                assert(not_after(s[p], s[j - 1]));
            }
        } else if i < p && j > p {
            assert(t[i] == s[i]);
            assert(t[j] == s[j - 1]);
        } else if i > p {
            assert(t[i] == s[i - 1]);
            assert(t[j] == s[j - 1]);
        } else {
            assert(t[i] == s[i]);
            assert(t[j] == s[j]);
        }
    }
}

/// The sorted grants come in key order.
pub proof fn lemma_sorted_grants_in_key_order(s: Seq<GrantView>)
    ensures
        grants_in_key_order(sorted_grants(s)),
    decreases s.len(),
{
    if s.len() > 0 {
        lemma_sorted_grants_in_key_order(s.drop_last());
        lemma_insert_keeps_order(sorted_grants(s.drop_last()), s.last());
    }
}

/// Sorting keeps exactly the grants it was given, each as often.
pub proof fn lemma_sorted_grants_permutation(s: Seq<GrantView>)
    ensures
        sorted_grants(s).to_multiset() =~= s.to_multiset(),
        sorted_grants(s).len() == s.len(),
    decreases s.len(),
{
    broadcast use vstd::seq_lib::group_to_multiset_ensures;

    if s.len() > 0 {
        let r = sorted_grants(s.drop_last());
        lemma_sorted_grants_permutation(s.drop_last());
        lemma_insert_position(r, s.last());
        assert(s =~= s.drop_last().push(s.last()));
    }
}

proof fn lemma_sorted_grants_contains(s: Seq<GrantView>, g: GrantView)
    ensures
        sorted_grants(s).contains(g) <==> s.contains(g),
{
    broadcast use vstd::seq_lib::group_to_multiset_ensures;

    lemma_sorted_grants_permutation(s);
    assert(sorted_grants(s).contains(g) <==> sorted_grants(s).to_multiset().count(g) > 0);
    assert(s.contains(g) <==> s.to_multiset().count(g) > 0);
}

// ---------------------------------------------------------------------------
// Soundness of the grant paths
// ---------------------------------------------------------------------------

/// A grant is a genuine path for the question: its rule grants the
/// question, its binding subject names the subject, and a RoleBinding
/// grant is for a namespaced question in the binding's namespace.
pub open spec fn grant_is_sound(
    g: GrantView,
    subject: IdentityView,
    groups: Seq<Text>,
    req: CheckView,
) -> bool {
    &&& rule_admits(g.rule, req)
    &&& subject_named(g.matched_subject, g.binding_namespace, subject, groups)
    &&& (g.binding_kind == "ClusterRoleBinding"@ || (g.binding_kind == "RoleBinding"@
        && req.non_resource_url is None && req.namespace == g.binding_namespace))
}

pub open spec fn all_sound(
    s: Seq<GrantView>,
    subject: IdentityView,
    groups: Seq<Text>,
    req: CheckView,
) -> bool {
    forall|i: int| 0 <= i < s.len() ==> grant_is_sound(#[trigger] s[i], subject, groups, req)
}

proof fn lemma_all_sound_concat(
    a: Seq<GrantView>,
    b: Seq<GrantView>,
    subject: IdentityView,
    groups: Seq<Text>,
    req: CheckView,
)
    requires
        all_sound(a, subject, groups, req),
        all_sound(b, subject, groups, req),
    ensures
        all_sound(a + b, subject, groups, req),
{
    assert forall|i: int| 0 <= i < (a + b).len() implies grant_is_sound(
        #[trigger] (a + b)[i],
        subject,
        groups,
        req,
    ) by {
        if i < a.len() {
            assert((a + b)[i] == a[i]);
        } else {
            assert((a + b)[i] == b[i - a.len()]);
        }
    }
}

proof fn lemma_matching_subjects_sound(
    subjects: Seq<SubjectRefView>,
    n: int,
    ns: Option<Text>,
    subject: IdentityView,
    groups: Seq<Text>,
)
    requires
        n <= subjects.len(),
    ensures
        forall|i: int|
            0 <= i < matching_subjects(subjects, n, ns, subject, groups).len() ==> subject_named(
                #[trigger] matching_subjects(subjects, n, ns, subject, groups)[i],
                ns,
                subject,
                groups,
            ),
    decreases n,
{
    if n > 0 {
        lemma_matching_subjects_sound(subjects, n - 1, ns, subject, groups);
        let prev = matching_subjects(subjects, n - 1, ns, subject, groups);
        let cur = matching_subjects(subjects, n, ns, subject, groups);
        assert forall|i: int| 0 <= i < cur.len() implies subject_named(#[trigger] cur[i], ns, subject, groups) by {
            if i < prev.len() {
                assert(cur[i] == prev[i]);
            }
        }
    }
}

proof fn lemma_rule_grants_sound(
    b: BindingView,
    role: RoleView,
    cluster: bool,
    matched: Seq<SubjectRefView>,
    subject: IdentityView,
    groups: Seq<Text>,
    req: CheckView,
    n: int,
)
    requires
        n <= role.rules.len(),
        forall|i: int|
            0 <= i < matched.len() ==> subject_named(
                #[trigger] matched[i],
                b.metadata.namespace,
                subject,
                groups,
            ),
        cluster || (req.non_resource_url is None && req.namespace == b.metadata.namespace),
    ensures
        all_sound(rule_grants(b, role, cluster, matched, req, n), subject, groups, req),
    decreases n,
{
    if n > 0 {
        lemma_rule_grants_sound(b, role, cluster, matched, subject, groups, req, n - 1);
        if rule_admits(role.rules[n - 1], req) {
            let added = matched.map_values(
                |m: SubjectRefView| grant_for(b, role, cluster, n - 1, m),
            );
            assert forall|i: int| 0 <= i < added.len() implies grant_is_sound(
                #[trigger] added[i],
                subject,
                groups,
                req,
            ) by {
                assert(added[i] == grant_for(b, role, cluster, n - 1, matched[i]));
            }
            lemma_all_sound_concat(
                rule_grants(b, role, cluster, matched, req, n - 1),
                added,
                subject,
                groups,
                req,
            );
        }
    }
}

proof fn lemma_binding_grants_sound(
    snap: SnapshotView,
    subject: IdentityView,
    groups: Seq<Text>,
    req: CheckView,
    b: BindingView,
    cluster: bool,
)
    ensures
        all_sound(binding_grants(snap, subject, groups, req, b, cluster), subject, groups, req),
{
    if !(!cluster && req.non_resource_url is Some) && !(!cluster && req.namespace
        != b.metadata.namespace) {
        let n = b.subjects.len() as int;
        lemma_matching_subjects_sound(b.subjects, n, b.metadata.namespace, subject, groups);
        if let Some(role) = bound_role(snap, b, cluster) {
            lemma_rule_grants_sound(
                b,
                role,
                cluster,
                matching_subjects(b.subjects, n, b.metadata.namespace, subject, groups),
                subject,
                groups,
                req,
                role.rules.len() as int,
            );
        }
    }
}

proof fn lemma_bindings_grants_sound(
    snap: SnapshotView,
    subject: IdentityView,
    groups: Seq<Text>,
    req: CheckView,
    bindings: Seq<BindingView>,
    cluster: bool,
    n: int,
)
    requires
        n <= bindings.len(),
    ensures
        all_sound(
            bindings_grants(snap, subject, groups, req, bindings, cluster, n),
            subject,
            groups,
            req,
        ),
    decreases n,
{
    if n > 0 {
        lemma_bindings_grants_sound(snap, subject, groups, req, bindings, cluster, n - 1);
        lemma_binding_grants_sound(snap, subject, groups, req, bindings[n - 1], cluster);
        lemma_all_sound_concat(
            bindings_grants(snap, subject, groups, req, bindings, cluster, n - 1),
            binding_grants(snap, subject, groups, req, bindings[n - 1], cluster),
            subject,
            groups,
            req,
        );
    }
}

// ---------------------------------------------------------------------------
// Completeness of the grant paths
// ---------------------------------------------------------------------------

/// The RoleBindings, or the ClusterRoleBindings, of a snapshot.
pub open spec fn bindings_of(snap: SnapshotView, cluster: bool) -> Seq<BindingView> {
    if cluster {
        snap.cluster_role_bindings
    } else {
        snap.role_bindings
    }
}

proof fn lemma_matching_subjects_complete(
    subjects: Seq<SubjectRefView>,
    n: int,
    ns: Option<Text>,
    subject: IdentityView,
    groups: Seq<Text>,
    k: int,
)
    requires
        0 <= k < n <= subjects.len(),
        subject_named(subjects[k], ns, subject, groups),
    ensures
        matching_subjects(subjects, n, ns, subject, groups).contains(subjects[k]),
    decreases n,
{
    let prev = matching_subjects(subjects, n - 1, ns, subject, groups);
    if k < n - 1 {
        lemma_matching_subjects_complete(subjects, n - 1, ns, subject, groups, k);
        let i = choose|i: int| 0 <= i < prev.len() && prev[i] == subjects[k];
        assert(prev.push(subjects[n - 1])[i] == subjects[k]);
    } else {
        assert(prev.push(subjects[k])[prev.len() as int] == subjects[k]);
    }
}

proof fn lemma_rule_grants_complete(
    b: BindingView,
    role: RoleView,
    cluster: bool,
    matched: Seq<SubjectRefView>,
    req: CheckView,
    n: int,
    index: int,
    m: SubjectRefView,
)
    requires
        0 <= index < n <= role.rules.len(),
        rule_admits(role.rules[index], req),
        matched.contains(m),
    ensures
        rule_grants(b, role, cluster, matched, req, n).contains(grant_for(b, role, cluster, index, m)),
    decreases n,
{
    let prev = rule_grants(b, role, cluster, matched, req, n - 1);
    let g = grant_for(b, role, cluster, index, m);
    let added = matched.map_values(|x: SubjectRefView| grant_for(b, role, cluster, n - 1, x));
    if index < n - 1 {
        lemma_rule_grants_complete(b, role, cluster, matched, req, n - 1, index, m);
        let i = choose|i: int| 0 <= i < prev.len() && prev[i] == g;
        assert((prev + added)[i] == g);
    } else {
        let j = choose|j: int| 0 <= j < matched.len() && matched[j] == m;
        assert(added[j] == g);
        assert((prev + added)[prev.len() + j] == g);
    }
}

proof fn lemma_bindings_grants_complete(
    snap: SnapshotView,
    subject: IdentityView,
    groups: Seq<Text>,
    req: CheckView,
    bindings: Seq<BindingView>,
    cluster: bool,
    n: int,
    k: int,
    g: GrantView,
)
    requires
        0 <= k < n <= bindings.len(),
        binding_grants(snap, subject, groups, req, bindings[k], cluster).contains(g),
    ensures
        bindings_grants(snap, subject, groups, req, bindings, cluster, n).contains(g),
    decreases n,
{
    let prev = bindings_grants(snap, subject, groups, req, bindings, cluster, n - 1);
    let cur = binding_grants(snap, subject, groups, req, bindings[n - 1], cluster);
    if k < n - 1 {
        lemma_bindings_grants_complete(snap, subject, groups, req, bindings, cluster, n - 1, k, g);
        let i = choose|i: int| 0 <= i < prev.len() && prev[i] == g;
        assert((prev + cur)[i] == g);
    } else {
        let j = choose|j: int| 0 <= j < cur.len() && cur[j] == g;
        assert((prev + cur)[prev.len() + j] == g);
    }
}

// ---------------------------------------------------------------------------
// More objects and more groups
// ---------------------------------------------------------------------------

/// `snap2` is `snap` with further Roles, ClusterRoles, RoleBindings and
/// ClusterRoleBindings appended at the ends of its lists.
pub open spec fn appended_to(snap: SnapshotView, snap2: SnapshotView) -> bool {
    &&& snap.roles.is_prefix_of(snap2.roles)
    &&& snap.cluster_roles.is_prefix_of(snap2.cluster_roles)
    &&& snap.role_bindings.is_prefix_of(snap2.role_bindings)
    &&& snap.cluster_role_bindings.is_prefix_of(snap2.cluster_role_bindings)
}

/// Every group of `groups` is also in `groups2`.
pub open spec fn groups_within(groups: Seq<Text>, groups2: Seq<Text>) -> bool {
    forall|g: Text| #[trigger] groups.contains(g) ==> groups2.contains(g)
}

proof fn lemma_first_match_prefix(
    s: Seq<RoleView>,
    s2: Seq<RoleView>,
    p: spec_fn(RoleView) -> bool,
)
    requires
        s.is_prefix_of(s2),
        first_match(s, p) is Some,
    ensures
        first_match(s2, p) == first_match(s, p),
    decreases s.len(),
{
    assert(s[0] == s2.subrange(0, s.len() as int)[0]);
    if !p(s[0]) {
        assert(s.drop_first() =~= s2.drop_first().subrange(0, s.len() - 1));
        lemma_first_match_prefix(s.drop_first(), s2.drop_first(), p);
    }
}

proof fn lemma_bound_role_kept(snap: SnapshotView, snap2: SnapshotView, b: BindingView, cluster: bool)
    requires
        appended_to(snap, snap2),
        bound_role(snap, b, cluster) is Some,
    ensures
        bound_role(snap2, b, cluster) == bound_role(snap, b, cluster),
{
    if b.role_ref.kind == "Role"@ && !cluster {
        lemma_first_match_prefix(
            snap.roles,
            snap2.roles,
            role_named(b.role_ref.name, b.metadata.namespace),
        );
    } else if b.role_ref.kind == "ClusterRole"@ {
        lemma_first_match_prefix(
            snap.cluster_roles,
            snap2.cluster_roles,
            cluster_role_named(b.role_ref.name),
        );
    }
}

proof fn lemma_matching_subjects_grow(
    subjects: Seq<SubjectRefView>,
    n: int,
    ns: Option<Text>,
    subject: IdentityView,
    groups: Seq<Text>,
    groups2: Seq<Text>,
)
    requires
        groups_within(groups, groups2),
    ensures
        matching_subjects(subjects, n, ns, subject, groups).len() <= matching_subjects(
            subjects,
            n,
            ns,
            subject,
            groups2,
        ).len(),
    decreases n,
{
    if n > 0 {
        lemma_matching_subjects_grow(subjects, n - 1, ns, subject, groups, groups2);
        if subject_named(subjects[n - 1], ns, subject, groups) {
            assert(subject_named(subjects[n - 1], ns, subject, groups2));
        }
    }
}

proof fn lemma_rule_grants_grow(
    b: BindingView,
    role: RoleView,
    cluster: bool,
    matched: Seq<SubjectRefView>,
    matched2: Seq<SubjectRefView>,
    req: CheckView,
    n: int,
)
    requires
        matched.len() <= matched2.len(),
    ensures
        rule_grants(b, role, cluster, matched, req, n).len() <= rule_grants(
            b,
            role,
            cluster,
            matched2,
            req,
            n,
        ).len(),
    decreases n,
{
    if n > 0 {
        lemma_rule_grants_grow(b, role, cluster, matched, matched2, req, n - 1);
    }
}

proof fn lemma_binding_grants_grow(
    snap: SnapshotView,
    snap2: SnapshotView,
    subject: IdentityView,
    groups: Seq<Text>,
    groups2: Seq<Text>,
    req: CheckView,
    b: BindingView,
    cluster: bool,
)
    requires
        appended_to(snap, snap2),
        groups_within(groups, groups2),
    ensures
        binding_grants(snap, subject, groups, req, b, cluster).len() <= binding_grants(
            snap2,
            subject,
            groups2,
            req,
            b,
            cluster,
        ).len(),
{
    let n = b.subjects.len() as int;
    let ns = b.metadata.namespace;
    lemma_matching_subjects_grow(b.subjects, n, ns, subject, groups, groups2);
    if let Some(role) = bound_role(snap, b, cluster) {
        lemma_bound_role_kept(snap, snap2, b, cluster);
        lemma_rule_grants_grow(
            b,
            role,
            cluster,
            matching_subjects(b.subjects, n, ns, subject, groups),
            matching_subjects(b.subjects, n, ns, subject, groups2),
            req,
            role.rules.len() as int,
        );
    }
}

proof fn lemma_bindings_grants_grow(
    snap: SnapshotView,
    snap2: SnapshotView,
    subject: IdentityView,
    groups: Seq<Text>,
    groups2: Seq<Text>,
    req: CheckView,
    bindings: Seq<BindingView>,
    bindings2: Seq<BindingView>,
    cluster: bool,
    n: int,
)
    requires
        appended_to(snap, snap2),
        groups_within(groups, groups2),
        bindings.is_prefix_of(bindings2),
        0 <= n <= bindings.len(),
    ensures
        bindings_grants(snap, subject, groups, req, bindings, cluster, n).len()
            <= bindings_grants(snap2, subject, groups2, req, bindings2, cluster, n).len(),
    decreases n,
{
    if n > 0 {
        lemma_bindings_grants_grow(
            snap,
            snap2,
            subject,
            groups,
            groups2,
            req,
            bindings,
            bindings2,
            cluster,
            n - 1,
        );
        assert(bindings2[n - 1] == bindings2.subrange(0, bindings.len() as int)[n - 1]);
        lemma_binding_grants_grow(snap, snap2, subject, groups, groups2, req, bindings[n - 1], cluster);
    }
}

proof fn lemma_bindings_grants_longer(
    snap: SnapshotView,
    subject: IdentityView,
    groups: Seq<Text>,
    req: CheckView,
    bindings: Seq<BindingView>,
    cluster: bool,
    n: int,
    m: int,
)
    requires
        0 <= n <= m,
    ensures
        bindings_grants(snap, subject, groups, req, bindings, cluster, n).len()
            <= bindings_grants(snap, subject, groups, req, bindings, cluster, m).len(),
    decreases m - n,
{
    if m > n {
        lemma_bindings_grants_longer(snap, subject, groups, req, bindings, cluster, n, m - 1);
    }
}

// ---------------------------------------------------------------------------
// Which role a grant comes from
// ---------------------------------------------------------------------------

/// The grant's rule is rule `g.rule_index` of the role it names, found as
/// Kubernetes finds it: through a RoleBinding, a Role comes from the first
/// Role of the snapshot with that name in the binding's own namespace; a
/// ClusterRole comes from the first ClusterRole with that name. A
/// ClusterRoleBinding never grants through a Role.
pub open spec fn grant_role_traced(snap: SnapshotView, g: GrantView) -> bool {
    &&& g.role_kind == "Role"@ ==> {
        &&& g.binding_kind == "RoleBinding"@
        &&& exists|k: int|
            #![trigger snap.roles[k]]
            0 <= k < snap.roles.len() && snap.roles[k].metadata.name == g.role_name
                && snap.roles[k].metadata.namespace == g.binding_namespace && 0 <= g.rule_index
                < snap.roles[k].rules.len() && snap.roles[k].rules[g.rule_index] == g.rule && (
            forall|j: int|
                #![trigger snap.roles[j]]
                0 <= j < k ==> !(snap.roles[j].metadata.name == g.role_name
                    && snap.roles[j].metadata.namespace == g.binding_namespace))
    }
    &&& g.role_kind == "ClusterRole"@ ==> exists|k: int|
        #![trigger snap.cluster_roles[k]]
        0 <= k < snap.cluster_roles.len() && snap.cluster_roles[k].metadata.name == g.role_name
            && 0 <= g.rule_index < snap.cluster_roles[k].rules.len()
            && snap.cluster_roles[k].rules[g.rule_index] == g.rule && (forall|j: int|
            #![trigger snap.cluster_roles[j]]
            0 <= j < k ==> snap.cluster_roles[j].metadata.name != g.role_name)
}

pub open spec fn all_traced(snap: SnapshotView, s: Seq<GrantView>) -> bool {
    forall|i: int| 0 <= i < s.len() ==> grant_role_traced(snap, #[trigger] s[i])
}

proof fn lemma_first_match_found(s: Seq<RoleView>, p: spec_fn(RoleView) -> bool) -> (k: int)
    requires
        first_match(s, p) is Some,
    ensures
        0 <= k < s.len(),
        s[k] == first_match(s, p)->0,
        p(s[k]),
        forall|j: int| 0 <= j < k ==> !p(#[trigger] s[j]),
    decreases s.len(),
{
    if p(s[0]) {
        0
    } else {
        let k = lemma_first_match_found(s.drop_first(), p);
        assert forall|j: int| 0 <= j < k + 1 implies !p(#[trigger] s[j]) by {
            if j > 0 {
                assert(s[j] == s.drop_first()[j - 1]);
            }
        }
        k + 1
    }
}

proof fn lemma_all_traced_concat(snap: SnapshotView, a: Seq<GrantView>, b: Seq<GrantView>)
    requires
        all_traced(snap, a),
        all_traced(snap, b),
    ensures
        all_traced(snap, a + b),
{
    assert forall|i: int| 0 <= i < (a + b).len() implies grant_role_traced(
        snap,
        #[trigger] (a + b)[i],
    ) by {
        if i < a.len() {
            assert((a + b)[i] == a[i]);
        } else {
            assert((a + b)[i] == b[i - a.len()]);
        }
    }
}

proof fn lemma_rule_grants_traced(
    snap: SnapshotView,
    b: BindingView,
    role: RoleView,
    cluster: bool,
    matched: Seq<SubjectRefView>,
    req: CheckView,
    n: int,
)
    requires
        bound_role(snap, b, cluster) == Some(role),
        n <= role.rules.len(),
    ensures
        all_traced(snap, rule_grants(b, role, cluster, matched, req, n)),
    decreases n,
{
    reveal_strlit("Role");
    reveal_strlit("ClusterRole");
    reveal_strlit("RoleBinding");
    reveal_strlit("ClusterRoleBinding");
    if n > 0 {
        lemma_rule_grants_traced(snap, b, role, cluster, matched, req, n - 1);
        if rule_admits(role.rules[n - 1], req) {
            let added = matched.map_values(
                |m: SubjectRefView| grant_for(b, role, cluster, n - 1, m),
            );
            assert forall|i: int| 0 <= i < added.len() implies grant_role_traced(
                snap,
                #[trigger] added[i],
            ) by {
                let g = added[i];
                assert(g == grant_for(b, role, cluster, n - 1, matched[i]));
                assert("Role"@.len() != "ClusterRole"@.len());
                assert("RoleBinding"@.len() != "ClusterRoleBinding"@.len());
                if b.role_ref.kind == "Role"@ && !cluster {
                    let p = role_named(b.role_ref.name, b.metadata.namespace);
                    let k = lemma_first_match_found(snap.roles, p);
                    assert(snap.roles[k] == role);
                    assert forall|j: int| 0 <= j < k implies !(snap.roles[j].metadata.name
                        == g.role_name && snap.roles[j].metadata.namespace
                        == g.binding_namespace) by {
                        assert(!p(snap.roles[j]));
                    }
                    assert(g.binding_kind == "RoleBinding"@);
                    assert(0 <= k < snap.roles.len() && snap.roles[k].metadata.name == g.role_name
                        && snap.roles[k].metadata.namespace == g.binding_namespace && 0
                        <= g.rule_index < snap.roles[k].rules.len() && snap.roles[k].rules[g.rule_index]
                        == g.rule);
                    assert(g.role_kind != "ClusterRole"@);
                } else if b.role_ref.kind == "ClusterRole"@ {
                    let p = cluster_role_named(b.role_ref.name);
                    let k = lemma_first_match_found(snap.cluster_roles, p);
                    assert(snap.cluster_roles[k] == role);
                    assert forall|j: int| 0 <= j < k implies snap.cluster_roles[j].metadata.name
                        != g.role_name by {
                        assert(!p(snap.cluster_roles[j]));
                    }
                    assert(0 <= k < snap.cluster_roles.len() && snap.cluster_roles[k].metadata.name
                        == g.role_name && 0 <= g.rule_index < snap.cluster_roles[k].rules.len()
                        && snap.cluster_roles[k].rules[g.rule_index] == g.rule);
                    assert(g.role_kind != "Role"@);
                } else {
                    assert(bound_role(snap, b, cluster) is None);
                }
            }
            lemma_all_traced_concat(snap, rule_grants(b, role, cluster, matched, req, n - 1), added);
        }
    }
}

proof fn lemma_bindings_grants_traced(
    snap: SnapshotView,
    subject: IdentityView,
    groups: Seq<Text>,
    req: CheckView,
    bindings: Seq<BindingView>,
    cluster: bool,
    n: int,
)
    requires
        n <= bindings.len(),
    ensures
        all_traced(snap, bindings_grants(snap, subject, groups, req, bindings, cluster, n)),
    decreases n,
{
    if n > 0 {
        lemma_bindings_grants_traced(snap, subject, groups, req, bindings, cluster, n - 1);
        let b = bindings[n - 1];
        let m = matching_subjects(b.subjects, b.subjects.len() as int, b.metadata.namespace, subject, groups);
        if let Some(role) = bound_role(snap, b, cluster) {
            lemma_rule_grants_traced(snap, b, role, cluster, m, req, role.rules.len() as int);
        }
        lemma_all_traced_concat(
            snap,
            bindings_grants(snap, subject, groups, req, bindings, cluster, n - 1),
            binding_grants(snap, subject, groups, req, b, cluster),
        );
    }
}

/// Every grant of a result comes from the role Kubernetes resolves its
/// binding to: through a RoleBinding to a Role, from the first Role of that
/// name in the binding's own namespace (a Role of the same name in another
/// namespace never contributes); through a ClusterRole, from the first
/// ClusterRole of that name; the grant's rule is that role's rule at the
/// grant's index. A ClusterRoleBinding never grants through a Role.
pub proof fn law_grants_come_from_the_resolved_role(
    snap: SnapshotView,
    subject: IdentityView,
    groups: Seq<Text>,
    req: CheckView,
)
    ensures
        all_traced(snap, check_outcome(snap, subject, groups, req).grants),
{
    lemma_bindings_grants_traced(
        snap,
        subject,
        groups,
        req,
        snap.role_bindings,
        false,
        snap.role_bindings.len() as int,
    );
    lemma_bindings_grants_traced(
        snap,
        subject,
        groups,
        req,
        snap.cluster_role_bindings,
        true,
        snap.cluster_role_bindings.len() as int,
    );
    let all = collected_grants(snap, subject, groups, req);
    lemma_all_traced_concat(
        snap,
        bindings_grants(snap, subject, groups, req, snap.role_bindings, false, snap.role_bindings.len() as int),
        bindings_grants(
            snap,
            subject,
            groups,
            req,
            snap.cluster_role_bindings,
            true,
            snap.cluster_role_bindings.len() as int,
        ),
    );
    let sorted = sorted_grants(all);
    assert forall|i: int| 0 <= i < sorted.len() implies grant_role_traced(snap, #[trigger] sorted[i]) by {
        lemma_sorted_grants_contains(all, sorted[i]);
        assert(sorted.contains(sorted[i]));
        let k = choose|k: int| 0 <= k < all.len() && all[k] == sorted[i];
        assert(grant_role_traced(snap, all[k]));
    }
}

// ---------------------------------------------------------------------------
// Laws
// ---------------------------------------------------------------------------

/// Every grant path reported for a question is genuine: its rule grants the
/// question, its binding subject names the evaluated subject (in one of the
/// evaluated groups, for a Group subject), a RoleBinding never grants a
/// non-resource URL, and a RoleBinding grants only in its own namespace.
pub proof fn law_every_grant_is_a_genuine_path(
    snap: SnapshotView,
    subject: IdentityView,
    groups: Seq<Text>,
    req: CheckView,
)
    ensures
        all_sound(check_outcome(snap, subject, groups, req).grants, subject, groups, req),
{
    lemma_bindings_grants_sound(
        snap,
        subject,
        groups,
        req,
        snap.role_bindings,
        false,
        snap.role_bindings.len() as int,
    );
    lemma_bindings_grants_sound(
        snap,
        subject,
        groups,
        req,
        snap.cluster_role_bindings,
        true,
        snap.cluster_role_bindings.len() as int,
    );
    let all = collected_grants(snap, subject, groups, req);
    lemma_all_sound_concat(
        bindings_grants(
            snap,
            subject,
            groups,
            req,
            snap.role_bindings,
            false,
            snap.role_bindings.len() as int,
        ),
        bindings_grants(
            snap,
            subject,
            groups,
            req,
            snap.cluster_role_bindings,
            true,
            snap.cluster_role_bindings.len() as int,
        ),
        subject,
        groups,
        req,
    );
    let sorted = sorted_grants(all);
    assert forall|i: int| 0 <= i < sorted.len() implies grant_is_sound(
        #[trigger] sorted[i],
        subject,
        groups,
        req,
    ) by {
        lemma_sorted_grants_contains(all, sorted[i]);
        assert(sorted.contains(sorted[i]));
        let k = choose|k: int| 0 <= k < all.len() && all[k] == sorted[i];
        assert(grant_is_sound(all[k], subject, groups, req));
    }
}

/// Every grant path is reported: for a binding that applies to the question
/// (any ClusterRoleBinding; a RoleBinding only for a resource question in
/// its own namespace), each of its subjects that names the evaluated
/// subject, and each rule of the role it refers to that grants the
/// question, the result holds the grant through that binding, subject and
/// rule.
pub proof fn law_every_grant_path_is_reported(
    snap: SnapshotView,
    subject: IdentityView,
    groups: Seq<Text>,
    req: CheckView,
    cluster: bool,
    k: int,
    b: BindingView,
    role: RoleView,
    s: int,
    index: int,
)
    requires
        0 <= k < bindings_of(snap, cluster).len(),
        bindings_of(snap, cluster)[k] == b,
        !cluster ==> req.non_resource_url is None && req.namespace == b.metadata.namespace,
        0 <= s < b.subjects.len(),
        subject_named(b.subjects[s], b.metadata.namespace, subject, groups),
        bound_role(snap, b, cluster) == Some(role),
        0 <= index < role.rules.len(),
        rule_admits(role.rules[index], req),
    ensures
        check_outcome(snap, subject, groups, req).grants.contains(
            grant_for(b, role, cluster, index, b.subjects[s]),
        ),
{
    let n = b.subjects.len() as int;
    lemma_matching_subjects_complete(b.subjects, n, b.metadata.namespace, subject, groups, s);
    let matched = matching_subjects(b.subjects, n, b.metadata.namespace, subject, groups);
    lemma_rule_grants_complete(
        b,
        role,
        cluster,
        matched,
        req,
        role.rules.len() as int,
        index,
        b.subjects[s],
    );
    let g = grant_for(b, role, cluster, index, b.subjects[s]);
    assert(binding_grants(snap, subject, groups, req, b, cluster) == rule_grants(
        b,
        role,
        cluster,
        matched,
        req,
        role.rules.len() as int,
    ));
    let list = bindings_of(snap, cluster);
    lemma_bindings_grants_complete(snap, subject, groups, req, list, cluster, list.len() as int, k, g);
    let rg = bindings_grants(
        snap,
        subject,
        groups,
        req,
        snap.role_bindings,
        false,
        snap.role_bindings.len() as int,
    );
    let cg = bindings_grants(
        snap,
        subject,
        groups,
        req,
        snap.cluster_role_bindings,
        true,
        snap.cluster_role_bindings.len() as int,
    );
    if cluster {
        let i = choose|i: int| 0 <= i < cg.len() && cg[i] == g;
        assert((rg + cg)[rg.len() + i] == g);
    } else {
        let i = choose|i: int| 0 <= i < rg.len() && rg[i] == g;
        assert((rg + cg)[i] == g);
    }
    lemma_sorted_grants_contains(collected_grants(snap, subject, groups, req), g);
}

/// More RBAC objects, appended after the collected ones, and membership in
/// more groups never turn an allowed question into a denied one: each
/// question has at least as many grant paths as before.
pub proof fn law_more_objects_and_groups_never_deny(
    snap: SnapshotView,
    snap2: SnapshotView,
    subject: IdentityView,
    groups: Seq<Text>,
    groups2: Seq<Text>,
    req: CheckView,
)
    requires
        appended_to(snap, snap2),
        groups_within(groups, groups2),
    ensures
        check_outcome(snap, subject, groups, req).grants.len() <= check_outcome(
            snap2,
            subject,
            groups2,
            req,
        ).grants.len(),
        check_outcome(snap, subject, groups, req).allowed ==> check_outcome(
            snap2,
            subject,
            groups2,
            req,
        ).allowed,
{
    lemma_bindings_grants_grow(
        snap,
        snap2,
        subject,
        groups,
        groups2,
        req,
        snap.role_bindings,
        snap2.role_bindings,
        false,
        snap.role_bindings.len() as int,
    );
    lemma_bindings_grants_longer(
        snap2,
        subject,
        groups2,
        req,
        snap2.role_bindings,
        false,
        snap.role_bindings.len() as int,
        snap2.role_bindings.len() as int,
    );
    lemma_bindings_grants_grow(
        snap,
        snap2,
        subject,
        groups,
        groups2,
        req,
        snap.cluster_role_bindings,
        snap2.cluster_role_bindings,
        true,
        snap.cluster_role_bindings.len() as int,
    );
    lemma_bindings_grants_longer(
        snap2,
        subject,
        groups2,
        req,
        snap2.cluster_role_bindings,
        true,
        snap.cluster_role_bindings.len() as int,
        snap2.cluster_role_bindings.len() as int,
    );
    lemma_sorted_grants_permutation(collected_grants(snap, subject, groups, req));
    lemma_sorted_grants_permutation(collected_grants(snap2, subject, groups2, req));
}

/// Asserting more groups puts the subject in more groups: every group the
/// subject is evaluated in stays one. With `evaluate`, whose evaluated
/// groups are exactly these, the law above then applies to the report.
pub proof fn law_more_asserted_groups_more_evaluated_groups(
    subject: IdentityView,
    asserted: Seq<Text>,
    asserted2: Seq<Text>,
)
    requires
        groups_within(asserted, asserted2),
    ensures
        forall|g: Text|
            #[trigger] group_set(subject, asserted).contains(g) ==> group_set(
                subject,
                asserted2,
            ).contains(g),
{
}

/// A question about a non-resource URL is only ever granted through a
/// ClusterRoleBinding.
pub proof fn law_non_resource_urls_only_through_cluster_role_bindings(
    snap: SnapshotView,
    subject: IdentityView,
    groups: Seq<Text>,
    req: CheckView,
)
    requires
        req.non_resource_url is Some,
    ensures
        forall|i: int|
            0 <= i < check_outcome(snap, subject, groups, req).grants.len() ==> (#[trigger] check_outcome(
                snap,
                subject,
                groups,
                req,
            ).grants[i]).binding_kind == "ClusterRoleBinding"@,
{
    law_every_grant_is_a_genuine_path(snap, subject, groups, req);
    let gs = check_outcome(snap, subject, groups, req).grants;
    assert forall|i: int| 0 <= i < gs.len() implies (#[trigger] gs[i]).binding_kind
        == "ClusterRoleBinding"@ by {
        assert(grant_is_sound(gs[i], subject, groups, req));
    }
}

/// The grants of a result come sorted by binding kind, binding namespace,
/// binding name, role name and rule index, and are exactly the collected
/// grant paths, each as often as it was found.
pub proof fn law_grants_sorted_and_complete(
    snap: SnapshotView,
    subject: IdentityView,
    groups: Seq<Text>,
    req: CheckView,
)
    ensures
        grants_in_key_order(check_outcome(snap, subject, groups, req).grants),
        check_outcome(snap, subject, groups, req).grants.to_multiset()
            == collected_grants(snap, subject, groups, req).to_multiset(),
{
    lemma_sorted_grants_in_key_order(collected_grants(snap, subject, groups, req));
    lemma_sorted_grants_permutation(collected_grants(snap, subject, groups, req));
}

/// A question is allowed exactly when some grant path exists, and an
/// uncertain question is always an allowed one.
pub proof fn law_uncertain_implies_allowed(
    snap: SnapshotView,
    subject: IdentityView,
    groups: Seq<Text>,
    req: CheckView,
)
    ensures
        check_outcome(snap, subject, groups, req).allowed <==> collected_grants(
            snap,
            subject,
            groups,
            req,
        ).len() > 0,
        check_outcome(snap, subject, groups, req).uncertain ==> check_outcome(
            snap,
            subject,
            groups,
            req,
        ).allowed,
{
    lemma_sorted_grants_permutation(collected_grants(snap, subject, groups, req));
}

/// Over any list of results in which uncertain implies allowed, the counts
/// satisfy `uncertain <= allowed <= total`, so `denied = total - allowed`
/// is never negative.
pub proof fn law_summary_counts(results: Seq<CheckResultView>, n: int)
    requires
        0 <= n <= results.len(),
        forall|i: int| 0 <= i < n ==> (#[trigger] results[i]).uncertain ==> results[i].allowed,
    ensures
        0 <= uncertain_count(results, n) <= allowed_count(results, n) <= n,
    decreases n,
{
    if n > 0 {
        law_summary_counts(results, n - 1);
    }
}

/// A rule restricted by `resourceNames` never grants a top-level `create`
/// nor a `deletecollection`, and grants a named `list` or `watch` only when
/// the question carries a field selector for that very name.
pub proof fn law_resource_names_follow_kubernetes(rule: RuleView, req: CheckView)
    requires
        rule.resource_names.len() > 0,
        rule_admits(rule, req),
        req.non_resource_url is None,
    ensures
        !(req.verb == "create"@ && req.subresource is None),
        req.verb != "deletecollection"@,
        (req.verb == "list"@ || req.verb == "watch"@) ==> (req.field_selector matches Some(sel)
            && req.resource_name matches Some(name) && selector_selects(sel, name)),
{
}

/// A `*/subresource` rule entry matches that subresource of any resource
/// (whose name has no `/`), never the parent resource and never another
/// subresource.
pub proof fn law_wildcard_subresource_is_exact(
    sub: Text,
    resource: Text,
    requested_sub: Option<Text>,
)
    requires
        !has_char(resource, '/'),
    ensures
        resource_entry_matches("*/"@ + sub, resource, requested_sub) <==> requested_sub == Some(
            sub,
        ),
{
    let entry = "*/"@ + sub;
    reveal_strlit("*/");
    reveal_strlit("*");
    reveal_strlit("/");
    assert(entry.len() == sub.len() + 2);
    assert(entry[0] == '*' && entry[1] == '/');
    assert(entry.skip(2) =~= sub);
    assert(entry != "*"@);
    match requested_sub {
        None => {
            if entry == resource {
                assert(resource[1] == '/');
                assert(has_char(resource, '/'));
            }
        },
        Some(s) => {
            let req = resource + "/"@ + s;
            if entry == req {
                if resource.len() == 0 {
                    assert(req[0] == '/');
                } else if resource.len() == 1 {
                    assert(req.skip(2) =~= s);
                } else {
                    assert(req[1] == resource[1]);
                    assert(has_char(resource, '/'));
                }
            }
            if "*/"@ + s == entry {
                assert(("*/"@ + s).skip(2) =~= s);
            }
        },
    }
}


// ---------------------------------------------------------------------------
// Matching, validation and the Markdown summary
// ---------------------------------------------------------------------------

/// A non-resource URL pattern covers the very URL it names; `*` covers
/// every URL; a pattern ending in `*` covers every URL that starts with
/// the part before the `*`.
pub proof fn law_url_patterns_cover(url: Text, prefix: Text, rest: Text)
    ensures
        url_pattern_covers(url, url),
        url_pattern_covers("*"@, url),
        url_pattern_covers(prefix + "*"@, prefix + rest),
{
    reveal_strlit("*");
    let p = prefix + "*"@;
    assert(p.last() == '*');
    assert(p.drop_last() =~= prefix);
    assert((prefix + rest).take(prefix.len() as int) =~= prefix);
}

/// A rule whose verbs name the question's verb and whose nonResourceURLs
/// name the requested URL itself admits the non-resource question.
pub proof fn law_rule_with_the_exact_url_admits(rule: RuleView, req: CheckView)
    requires
        req.non_resource_url is Some,
        rule.verbs.contains(req.verb),
        rule.non_resource_urls.contains(req.non_resource_url->0),
    ensures
        rule_admits(rule, req),
{
    let u = req.non_resource_url->0;
    let i = choose|i: int| 0 <= i < rule.verbs.len() && rule.verbs[i] == req.verb;
    assert(rule.verbs[i] == "*"@ || rule.verbs[i] == req.verb);
    let j = choose|j: int| 0 <= j < rule.non_resource_urls.len() && rule.non_resource_urls[j] == u;
    law_url_patterns_cover(u, u, u);
    assert(url_pattern_covers(rule.non_resource_urls[j], u));
}

/// Which binding subjects name the evaluated subject: a User entry names a
/// User subject of the same name; a Group entry names a Group subject of
/// the same name, and names any subject that is in that group; a
/// ServiceAccount entry names a ServiceAccount subject of the same name in
/// the entry's namespace, or in the binding's namespace when the entry has
/// none. A User entry never names a subject of another kind, and an entry
/// of any other kind names no one.
pub proof fn law_binding_subjects_name_the_subject(
    candidate: SubjectRefView,
    binding_namespace: Option<Text>,
    subject: IdentityView,
    groups: Seq<Text>,
)
    ensures
        candidate.kind == "User"@ && subject.kind == "User"@ && candidate.name == subject.name
            ==> subject_named(candidate, binding_namespace, subject, groups),
        candidate.kind == "Group"@ && subject.kind == "Group"@ && candidate.name == subject.name
            ==> subject_named(candidate, binding_namespace, subject, groups),
        candidate.kind == "Group"@ && groups.contains(candidate.name) ==> subject_named(
            candidate,
            binding_namespace,
            subject,
            groups,
        ),
        candidate.kind == "ServiceAccount"@ && subject.kind == "ServiceAccount"@ && candidate.name
            == subject.name && candidate.namespace is Some && candidate.namespace
            == subject.namespace ==> subject_named(candidate, binding_namespace, subject, groups),
        candidate.kind == "ServiceAccount"@ && subject.kind == "ServiceAccount"@ && candidate.name
            == subject.name && candidate.namespace is None && binding_namespace
            == subject.namespace ==> subject_named(candidate, binding_namespace, subject, groups),
        candidate.kind == "User"@ && subject.kind != "User"@ ==> !subject_named(
            candidate,
            binding_namespace,
            subject,
            groups,
        ),
        candidate.kind != "User"@ && candidate.kind != "Group"@ && candidate.kind
            != "ServiceAccount"@ ==> !subject_named(candidate, binding_namespace, subject, groups),
{
    reveal_strlit("User");
    reveal_strlit("Group");
    reveal_strlit("ServiceAccount");
    assert("User"@.len() != "Group"@.len());
    assert("User"@.len() != "ServiceAccount"@.len());
    assert("Group"@.len() != "ServiceAccount"@.len());
}

/// A named `list` or `watch` question about a resource, with a field
/// selector, is a valid question; a field selector on any other verb is
/// refused.
pub proof fn law_field_selector_questions(c: CheckView)
    ensures
        (c.verb == "list"@ || c.verb == "watch"@) && c.resource is Some && c.non_resource_url
            is None && c.resource_name is Some ==> validation(c) is Ok,
        c.field_selector is Some && c.verb != "list"@ && c.verb != "watch"@ ==> validation(
            c,
        ) is Err,
{
    reveal_strlit("list");
    reveal_strlit("watch");
    if c.verb == "list"@ || c.verb == "watch"@ {
        assert(!is_space(c.verb[0]));
        assert(!all_space(c.verb));
    }
}

/// The Markdown packet states the summary counts in their places: the
/// total, then the allowed count before ` allowed`, the denied count before
/// ` denied` and the uncertain count before ` uncertain`.
pub proof fn law_markdown_states_the_summary(r: ReportView, kind: Text, jsons: Seq<Seq<Text>>)
    ensures
        ({
            let t = decimal(r.summary.total as nat) + " checks: **"@ + decimal(
                r.summary.allowed as nat,
            ) + " allowed**, **"@ + decimal(r.summary.denied as nat) + " denied**, **"@
                + decimal(r.summary.uncertain as nat) + " uncertain**."@;
            let m = markdown_text(r, kind, jsons);
            exists|i: int| 0 <= i && i + t.len() <= m.len() && #[trigger] m.subrange(i, i + t.len()) == t
        }),
{
    reveal_strlit(" uncertain**.\n\n");
    reveal_strlit(" uncertain**.");
    let t = decimal(r.summary.total as nat) + " checks: **"@ + decimal(r.summary.allowed as nat)
        + " allowed**, **"@ + decimal(r.summary.denied as nat) + " denied**, **"@ + decimal(
        r.summary.uncertain as nat,
    ) + " uncertain**."@;
    let sl = summary_line(r.summary);
    assert(t =~= sl.take(t.len() as int));
    let pre = "# Kubernetes permission evidence\n\n"@ + ("**Subject:** `"@ + label_text(
        kind,
        r.subject,
    ) + "`  \n"@) + ("**Collected:** "@ + r.source.collected_at + "  \n"@) + ("**Context:** `"@
        + escape_inline_text(r.source.context) + "`  \n"@) + ("**Kubernetes:** `"@
        + escape_inline_text(r.source.server_version) + "`  \n"@) + ("**Snapshot SHA-256:** `"@
        + r.source.snapshot_sha256 + "`  \n"@) + signature_lines(r.signature)
        + "\n## Summary\n\n"@;
    let h = head_text(r, kind);
    let m = markdown_text(r, kind, jsons);
    let a = pre + sl;
    assert(h == a + "| # | Decision | Verb | Resource or URL | Namespace | Grant paths |\n"@
        + "|---:|---|---|---|---|---:|\n"@);
    let i = pre.len() as int;
    assert forall|j: int| 0 <= j < t.len() implies m[i + j] == t[j] by {
        assert(m[i + j] == h[i + j]);
        assert(h[i + j] == a[i + j]);
        assert(a[i + j] == sl[j]);
    }
    assert(m.subrange(i, i + t.len()) =~= t);
}

} // verus!
