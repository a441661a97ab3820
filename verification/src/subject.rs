//! Subjects: parsing the command-line form and deriving the groups that
//! Kubernetes adds to an authenticated identity.

use vstd::prelude::*;
use vstd::string::*;

use crate::model::{IdentityView, SubjectIdentity, Text, label_text, texts};
use crate::outside::ascii_lowercase;
use vstd::utf8::is_ascii_chars;
use crate::text::{
    all_space, find_char, first_index, has_char, is_blank, lemma_first_index, lemma_seq_lt_total,
    lemma_seq_lt_transitive, seq_lt, starts_with, str_eq, str_has_char, str_lt, str_starts_with,
    substring,
};

verus! {

pub open spec fn service_account_message() -> Text {
    "expected serviceaccount:<namespace>:<name>"@
}

pub open spec fn subject_forms_message() -> Text {
    "expected user:<name>, group:<name>, or serviceaccount:<namespace>:<name>"@
}

/// `<namespace>:<name>` after a service-account prefix.
pub open spec fn service_account_parse(rest: Text) -> Result<IdentityView, Text> {
    if has_char(rest, ':') {
        let k = first_index(rest, ':');
        let namespace = rest.take(k);
        let name = rest.skip(k + 1);
        if namespace.len() > 0 && name.len() > 0 && !has_char(name, ':') {
            Ok(IdentityView { kind: "ServiceAccount"@, name: name, namespace: Some(namespace) })
        } else {
            Err(service_account_message())
        }
    } else {
        Err(service_account_message())
    }
}

/// What `parse_subject` answers for a command-line subject.
pub open spec fn subject_parse(v: Text) -> Result<IdentityView, Text> {
    if starts_with(v, "user:"@) && v.len() > "user:"@.len() {
        Ok(IdentityView { kind: "User"@, name: v.skip("user:"@.len() as int), namespace: None })
    } else if starts_with(v, "group:"@) && v.len() > "group:"@.len() {
        Ok(IdentityView { kind: "Group"@, name: v.skip("group:"@.len() as int), namespace: None })
    } else if starts_with(v, "serviceaccount:"@) {
        service_account_parse(v.skip("serviceaccount:"@.len() as int))
    } else if starts_with(v, "sa:"@) {
        service_account_parse(v.skip("sa:"@.len() as int))
    } else {
        Err(subject_forms_message())
    }
}

fn parse_error(s: &str) -> (r: Result<SubjectIdentity, String>)
    ensures
        r is Err,
        r->Err_0@ == s@,
{
    Err(String::from_str(s))
}

/// `Some(rest)` when `value` starts with `prefix`.
fn strip_prefix(value: &str, prefix: &str) -> (r: Option<String>)
    ensures
        r is Some <==> starts_with(value@, prefix@),
        r matches Some(rest) ==> rest@ == value@.skip(prefix@.len() as int),
{
    if str_starts_with(value, prefix) {
        let n = value.unicode_len();
        let p = prefix.unicode_len();
        let rest = substring(value, p, n);
        assert(rest@ =~= value@.skip(prefix@.len() as int));
        Some(rest)
    } else {
        None
    }
}

fn parse_service_account(rest: &str) -> (r: Result<SubjectIdentity, String>)
    ensures
        r is Ok <==> service_account_parse(rest@) is Ok,
        r matches Ok(s) ==> service_account_parse(rest@) == Ok::<IdentityView, Text>(s@),
        r matches Err(e) ==> service_account_parse(rest@) == Err::<IdentityView, Text>(e@),
{
    match find_char(rest, ':') {
        Some(k) => {
            let n = rest.unicode_len();
            let namespace = substring(rest, 0, k);
            let name = substring(rest, k + 1, n);
            assert(namespace@ =~= rest@.take(k as int));
            assert(name@ =~= rest@.skip(k + 1));
            if namespace.unicode_len() > 0 && name.unicode_len() > 0 && !str_has_char(
                name.as_str(),
                ':',
            ) {
                Ok(
                    SubjectIdentity {
                        kind: String::from_str("ServiceAccount"),
                        name: name,
                        namespace: Some(namespace),
                    },
                )
            } else {
                parse_error("expected serviceaccount:<namespace>:<name>")
            }
        },
        None => parse_error("expected serviceaccount:<namespace>:<name>"),
    }
}

/// Parses `user:<name>`, `group:<name>` or `serviceaccount:<namespace>:<name>`
/// (also written `sa:<namespace>:<name>`).
pub fn parse_subject(value: &str) -> (r: Result<SubjectIdentity, String>)
    ensures
        r is Ok <==> subject_parse(value@) is Ok,
        r matches Ok(s) ==> subject_parse(value@) == Ok::<IdentityView, Text>(s@),
        r matches Err(e) ==> subject_parse(value@) == Err::<IdentityView, Text>(e@),
{
    if let Some(name) = strip_prefix(value, "user:") {
        if name.unicode_len() > 0 {
            return Ok(
                SubjectIdentity { kind: String::from_str("User"), name: name, namespace: None },
            );
        }
    }
    if let Some(name) = strip_prefix(value, "group:") {
        if name.unicode_len() > 0 {
            return Ok(
                SubjectIdentity { kind: String::from_str("Group"), name: name, namespace: None },
            );
        }
    }
    if let Some(rest) = strip_prefix(value, "serviceaccount:") {
        return parse_service_account(rest.as_str());
    }
    if let Some(rest) = strip_prefix(value, "sa:") {
        return parse_service_account(rest.as_str());
    }
    parse_error("expected user:<name>, group:<name>, or serviceaccount:<namespace>:<name>")
}

/// Writing a parsed subject back with `SubjectIdentity::label` gives the
/// text it was parsed from, for the `user:`, `group:` and
/// `serviceaccount:` forms (the `sa:` alias comes back in the long form).
/// The parsed kind is ASCII, so `label` lower-cases it the ASCII way.
pub proof fn law_label_writes_back_parsed_subject(v: Text)
    requires
        subject_parse(v) is Ok,
        !starts_with(v, "sa:"@),
    ensures
        is_ascii_chars(subject_parse(v)->Ok_0.kind),
        label_text(ascii_lowercase(subject_parse(v)->Ok_0.kind), subject_parse(v)->Ok_0) == v,
{
    reveal_strlit("user:");
    reveal_strlit("group:");
    reveal_strlit("serviceaccount:");
    reveal_strlit("sa:");
    reveal_strlit("User");
    reveal_strlit("Group");
    reveal_strlit("ServiceAccount");
    reveal_strlit("user");
    reveal_strlit("group");
    reveal_strlit("serviceaccount");
    reveal_strlit(":");
    let id = subject_parse(v)->Ok_0;
    if starts_with(v, "user:"@) && v.len() > "user:"@.len() {
        assert(ascii_lowercase("User"@) =~= "user"@);
        assert(v =~= v.take(5) + v.skip(5));
        assert(label_text(ascii_lowercase(id.kind), id) =~= v);
    } else if starts_with(v, "group:"@) && v.len() > "group:"@.len() {
        assert(ascii_lowercase("Group"@) =~= "group"@);
        assert(v =~= v.take(6) + v.skip(6));
        assert(label_text(ascii_lowercase(id.kind), id) =~= v);
    } else {
        assert(starts_with(v, "serviceaccount:"@));
        let rest = v.skip(15);
        lemma_first_index(rest, ':');
        let k = first_index(rest, ':');
        assert(ascii_lowercase("ServiceAccount"@) =~= "serviceaccount"@);
        assert(rest =~= rest.take(k) + ":"@ + rest.skip(k + 1));
        assert(v =~= v.take(15) + rest);
        assert(label_text(ascii_lowercase(id.kind), id) =~= v);
    }
}

// ---------------------------------------------------------------------------
// Groups
// ---------------------------------------------------------------------------

/// The groups Kubernetes attaches to a subject by itself.
pub open spec fn derived_groups(s: IdentityView) -> Set<Text> {
    if s.kind == "ServiceAccount"@ {
        let base = set!["system:authenticated"@, "system:serviceaccounts"@];
        match s.namespace {
            Some(ns) => base.insert("system:serviceaccounts:"@ + ns),
            None => base,
        }
    } else if s.kind == "User"@ && s.name != "system:anonymous"@ {
        set!["system:authenticated"@]
    } else {
        Set::empty()
    }
}

/// Every group the evaluation counts the subject in: each asserted group
/// that is not blank, and the derived ones.
pub open spec fn group_set(s: IdentityView, asserted: Seq<Text>) -> Set<Text> {
    Set::new(
        |g: Text|
            (asserted.contains(g) && !all_space(g)) || derived_groups(s).contains(g),
    )
}

/// Strictly increasing in `String`'s order, hence free of duplicates.
pub open spec fn strictly_sorted(v: Seq<Text>) -> bool {
    forall|i: int, j: int| 0 <= i < j < v.len() ==> seq_lt(#[trigger] v[i], #[trigger] v[j])
}

/// Inserts `g` into a strictly sorted list unless it is there already.
fn insert_group(groups: &mut Vec<String>, g: String)
    requires
        strictly_sorted(texts(old(groups)@)),
    ensures
        strictly_sorted(texts(final(groups)@)),
        forall|t: Text|
            #![trigger texts(final(groups)@).contains(t)]
            #![trigger texts(old(groups)@).contains(t)]
            texts(final(groups)@).contains(t) <==> (texts(old(groups)@).contains(t) || t == g@),
{
    let ghost old_v = texts(groups@);
    let mut i: usize = 0;
    while i < groups.len() && str_lt(groups[i].as_str(), g.as_str())
        invariant
            old_v == texts(groups@),
            strictly_sorted(old_v),
            i <= groups.len(),
            forall|j: int| 0 <= j < i ==> seq_lt(#[trigger] old_v[j], g@),
        decreases groups.len() - i,
    {
        i += 1;
    }
    if i < groups.len() && str_eq(groups[i].as_str(), g.as_str()) {
        assert(old_v[i as int] == groups@[i as int]@);
        assert(old_v.contains(g@));
        return;
    }
    proof {
        if i < groups.len() {
            lemma_seq_lt_total(old_v[i as int], g@);
        }
    }
    groups.insert(i, g);
    proof {
        let nv = texts(groups@);
        assert(nv =~= old_v.insert(i as int, g@));
        assert forall|a: int, b: int| 0 <= a < b < nv.len() implies seq_lt(
            #[trigger] nv[a],
            #[trigger] nv[b],
        ) by {
            if b == i {
                assert(nv[a] == old_v[a]);
            } else if a == i {
                assert(nv[b] == old_v[b - 1]);
                if b - 1 > i {
                    lemma_seq_lt_transitive(g@, old_v[i as int], old_v[b - 1]);
                }
            } else if a < i && b > i {
                assert(nv[a] == old_v[a]);
                assert(nv[b] == old_v[b - 1]);
            } else if a > i {
                assert(nv[a] == old_v[a - 1]);
                assert(nv[b] == old_v[b - 1]);
            } else {
                assert(nv[a] == old_v[a]);
                assert(nv[b] == old_v[b]);
            }
        }
        assert forall|t: Text| nv.contains(t) <==> (old_v.contains(t) || t == g@) by {
            if nv.contains(t) {
                let k = choose|k: int| 0 <= k < nv.len() && nv[k] == t;
                if k < i {
                    assert(old_v[k] == t);
                } else if k > i {
                    assert(old_v[k - 1] == t);
                }
            }
            if old_v.contains(t) {
                let k = choose|k: int| 0 <= k < old_v.len() && old_v[k] == t;
                if k < i {
                    assert(nv[k] == t);
                } else {
                    assert(nv[k + 1] == t);
                }
            }
            if t == g@ {
                assert(nv[i as int] == t);
            }
        }
    }
}

/// The groups the subject is evaluated in, sorted and without duplicates:
/// the non-blank asserted groups, plus `system:authenticated` for a user
/// other than `system:anonymous`, plus `system:authenticated`,
/// `system:serviceaccounts` and `system:serviceaccounts:<namespace>` for a
/// service account.
pub fn evaluated_groups(subject: &SubjectIdentity, asserted: &[String]) -> (r: Vec<String>)
    ensures
        strictly_sorted(texts(r@)),
        forall|g: Text| texts(r@).contains(g) <==> group_set(subject@, texts(asserted@)).contains(g),
{
    let mut groups: Vec<String> = Vec::new();
    let ghost a = texts(asserted@);
    let mut i: usize = 0;
    while i < asserted.len()
        invariant
            a == texts(asserted@),
            i <= asserted.len(),
            strictly_sorted(texts(groups@)),
            forall|g: Text|
                #![trigger texts(groups@).contains(g)]
                #![trigger a.take(i as int).contains(g)]
                texts(groups@).contains(g) <==> (a.take(i as int).contains(g) && !all_space(g)),
        decreases asserted.len() - i,
    {
        let v = &asserted[i];
        let ghost g0 = texts(groups@);
        let blank = is_blank(v.as_str());
        if !blank {
            insert_group(&mut groups, v.clone());
        }
        proof {
            let next = a.take(i + 1);
            let prev = a.take(i as int);
            assert(next =~= prev.push(v@));
            assert forall|g: Text| next.contains(g) <==> (prev.contains(g) || g == v@) by {
                if next.contains(g) {
                    let k = choose|k: int| 0 <= k < next.len() && next[k] == g;
                    if k < i {
                        assert(prev[k] == g);
                    }
                }
                if prev.contains(g) {
                    let k = choose|k: int| 0 <= k < prev.len() && prev[k] == g;
                    assert(next[k] == g);
                }
                if g == v@ {
                    assert(next[i as int] == g);
                }
            }
            assert(forall|g: Text|
                texts(groups@).contains(g) <==> (g0.contains(g) || (!blank && g == v@)));
            assert(forall|g: Text| g0.contains(g) <==> (prev.contains(g) && !all_space(g)));
            assert forall|g: Text|
                texts(groups@).contains(g) <==> (next.contains(g) && !all_space(g)) by {
                assert(texts(groups@).contains(g) <==> (g0.contains(g) || (!blank && g == v@)));
                assert(g0.contains(g) <==> (prev.contains(g) && !all_space(g)));
                assert(next.contains(g) <==> (prev.contains(g) || g == v@));
            }
        }
        i += 1;
    }
    assert(a.take(asserted.len() as int) =~= a);
    let ghost before = texts(groups@);
    assert(forall|g: Text| before.contains(g) <==> (a.contains(g) && !all_space(g)));
    if str_eq(subject.kind.as_str(), "ServiceAccount") {
        insert_group(&mut groups, String::from_str("system:authenticated"));
        insert_group(&mut groups, String::from_str("system:serviceaccounts"));
        if let Some(namespace) = &subject.namespace {
            let mut g = String::from_str("system:serviceaccounts:");
            g.append(namespace.as_str());
            insert_group(&mut groups, g);
        }
    } else if str_eq(subject.kind.as_str(), "User") && !str_eq(
        subject.name.as_str(),
        "system:anonymous",
    ) {
        insert_group(&mut groups, String::from_str("system:authenticated"));
    }
    proof {
        let gs = group_set(subject@, a);
        assert forall|g: Text| texts(groups@).contains(g) <==> gs.contains(g) by {
            assert(before.contains(g) <==> (a.contains(g) && !all_space(g)));
        }
    }
    groups
}

} // verus!
