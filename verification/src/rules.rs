//! Kubernetes RBAC matching: how one policy rule answers one access
//! question, and how one binding subject names the evaluated subject.

use vstd::prelude::*;
use vstd::string::*;

use crate::model::{
    CheckView, IdentityView, PolicyRule, RbacSubject, RuleView, SubjectIdentity, SubjectRefView,
    Text, AccessCheck, texts, opt_str,
};
use crate::text::{
    chars_of, first_index, has_char, lemma_first_index, starts_with, str_eq, str_starts_with,
    str_trim, substring, trim, find_char,
};

verus! {

// ---------------------------------------------------------------------------
// Specifications
// ---------------------------------------------------------------------------

/// Some entry is `*` or equals `expected`.
pub open spec fn has_entry_or_star(values: Seq<Text>, expected: Text) -> bool {
    exists|i: int| 0 <= i < values.len() && (values[i] == "*"@ || values[i] == expected)
}

/// `resource` or `resource/subresource`.
pub open spec fn requested_resource(resource: Text, subresource: Option<Text>) -> Text {
    match subresource {
        Some(s) => resource + "/"@ + s,
        None => resource,
    }
}

/// One `resources` entry covers the request: `*`, the exact
/// `resource[/subresource]`, or `*/subresource` for that subresource.
pub open spec fn resource_entry_matches(value: Text, resource: Text, subresource: Option<Text>) -> bool {
    ||| value == "*"@
    ||| value == requested_resource(resource, subresource)
    ||| (subresource matches Some(s) && value == "*/"@ + s)
}

pub open spec fn resources_cover(values: Seq<Text>, resource: Text, subresource: Option<Text>) -> bool {
    exists|i: int| 0 <= i < values.len() && resource_entry_matches(values[i], resource, subresource)
}

/// A non-resource URL pattern: `*`, the exact URL, or a prefix ending in
/// one trailing `*`.
pub open spec fn url_pattern_covers(pattern: Text, url: Text) -> bool {
    ||| pattern == "*"@
    ||| pattern == url
    ||| (pattern.len() > 0 && pattern.last() == '*' && starts_with(url, pattern.drop_last()))
}

/// One field-selector requirement selects exactly `name` by
/// `metadata.name==` or `metadata.name=`.
pub open spec fn requirement_selects(req: Text, name: Text) -> bool {
    if starts_with(req, "metadata.name=="@) {
        req.skip("metadata.name=="@.len() as int) == name
    } else if starts_with(req, "metadata.name="@) {
        req.skip("metadata.name="@.len() as int) == name
    } else {
        false
    }
}

/// Some comma-separated requirement of the selector, once trimmed, selects
/// `name`.
pub open spec fn selector_selects(selector: Text, name: Text) -> bool
    decreases selector.len(),
{
    if has_char(selector, ',') {
        let k = first_index(selector, ',');
        if 0 <= k < selector.len() {
            requirement_selects(trim(selector.take(k)), name) || selector_selects(
                selector.skip(k + 1),
                name,
            )
        } else {
            false
        }
    } else {
        requirement_selects(trim(selector), name)
    }
}

/// What a `resourceNames` entry grants for the named request's verb:
/// never a top-level `create` nor a `deletecollection`; a `list` or `watch`
/// only with a field selector for that very name.
pub open spec fn named_verb_allowed(req: CheckView, name: Text) -> bool {
    if req.verb == "create"@ && req.subresource is None {
        false
    } else if req.verb == "deletecollection"@ {
        false
    } else if req.verb == "list"@ || req.verb == "watch"@ {
        req.field_selector matches Some(selector) && selector_selects(selector, name)
    } else {
        true
    }
}

/// Does the policy rule grant the access question?
pub open spec fn rule_admits(rule: RuleView, req: CheckView) -> bool {
    if !has_entry_or_star(rule.verbs, req.verb) {
        false
    } else if req.non_resource_url is Some {
        exists|i: int|
            0 <= i < rule.non_resource_urls.len() && url_pattern_covers(
                rule.non_resource_urls[i],
                req.non_resource_url->0,
            )
    } else if rule.non_resource_urls.len() > 0 && rule.resources.len() == 0 {
        false
    } else if !has_entry_or_star(rule.api_groups, req.api_group) {
        false
    } else if req.resource is None {
        false
    } else if !resources_cover(rule.resources, req.resource->0, req.subresource) {
        false
    } else if rule.resource_names.len() == 0 {
        true
    } else if !(req.resource_name matches Some(n) && rule.resource_names.contains(n)) {
        false
    } else {
        named_verb_allowed(req, req.resource_name->0)
    }
}

/// Does a binding subject name the evaluated subject? A service account
/// entry without a namespace means the binding's namespace.
pub open spec fn subject_named(
    candidate: SubjectRefView,
    binding_namespace: Option<Text>,
    subject: IdentityView,
    groups: Seq<Text>,
) -> bool {
    if candidate.kind == "User"@ {
        subject.kind == "User"@ && candidate.name == subject.name
    } else if candidate.kind == "Group"@ {
        (subject.kind == "Group"@ && candidate.name == subject.name) || groups.contains(
            candidate.name,
        )
    } else if candidate.kind == "ServiceAccount"@ {
        &&& subject.kind == "ServiceAccount"@
        &&& candidate.name == subject.name
        &&& (match candidate.namespace {
            Some(ns) => Some(ns),
            None => binding_namespace,
        }) == subject.namespace
    } else {
        false
    }
}

// ---------------------------------------------------------------------------
// Executable matching
// ---------------------------------------------------------------------------

pub fn contains_or_star(values: &Vec<String>, expected: &str) -> (r: bool)
    ensures
        r == has_entry_or_star(texts(values@), expected@),
{
    let ghost vs = texts(values@);
    let mut i: usize = 0;
    while i < values.len()
        invariant
            vs == texts(values@),
            i <= values.len(),
            forall|j: int| 0 <= j < i ==> !(#[trigger] vs[j] == "*"@ || vs[j] == expected@),
        decreases values.len() - i,
    {
        let v = values[i].as_str();
        if str_eq(v, "*") || str_eq(v, expected) {
            assert(vs[i as int] == values@[i as int]@);
            return true;
        }
        assert(vs[i as int] == values@[i as int]@);
        i += 1;
    }
    false
}

pub fn resource_matches(values: &Vec<String>, resource: &str, subresource: Option<&str>) -> (r: bool)
    ensures
        r == resources_cover(
            texts(values@),
            resource@,
            match subresource {
                Some(s) => Some(s@),
                None => None,
            },
        ),
{
    let ghost sub: Option<Text> = match subresource {
        Some(s) => Some(s@),
        None => None,
    };
    let mut requested = String::from_str(resource);
    let mut star_sub = String::from_str("*/");
    if let Some(s) = subresource {
        requested.append("/");
        requested.append(s);
        star_sub.append(s);
    }
    let ghost vs = texts(values@);
    let mut i: usize = 0;
    while i < values.len()
        invariant
            vs == texts(values@),
            i <= values.len(),
            requested@ == requested_resource(resource@, sub),
            sub == (match subresource {
                Some(s) => Some(s@),
                None => None::<Text>,
            }),
            sub matches Some(s) ==> star_sub@ == "*/"@ + s,
            forall|j: int|
                0 <= j < i ==> !resource_entry_matches(#[trigger] vs[j], resource@, sub),
        decreases values.len() - i,
    {
        let v = values[i].as_str();
        assert(vs[i as int] == v@);
        if str_eq(v, "*") || str_eq(v, requested.as_str()) || (subresource.is_some() && str_eq(
            v,
            star_sub.as_str(),
        )) {
            assert(resource_entry_matches(vs[i as int], resource@, sub));
            return true;
        }
        assert(!resource_entry_matches(vs[i as int], resource@, sub));
        i += 1;
    }
    false
}

pub fn url_matches(pattern: &str, url: &str) -> (r: bool)
    ensures
        r == url_pattern_covers(pattern@, url@),
{
    if str_eq(pattern, "*") || str_eq(pattern, url) {
        return true;
    }
    let chars = chars_of(pattern);
    let n = chars.len();
    if n > 0 && chars[n - 1] == '*' {
        let prefix = substring(pattern, 0, n - 1);
        assert(prefix@ =~= pattern@.drop_last());
        str_starts_with(url, prefix.as_str())
    } else {
        false
    }
}

fn requirement_matches_name(req: &str, name: &str) -> (r: bool)
    ensures
        r == requirement_selects(req@, name@),
{
    let n = req.unicode_len();
    let double = "metadata.name==";
    let single = "metadata.name=";
    if str_starts_with(req, double) {
        let rest = substring(req, double.unicode_len(), n);
        assert(rest@ =~= req@.skip(double@.len() as int));
        str_eq(rest.as_str(), name)
    } else if str_starts_with(req, single) {
        let rest = substring(req, single.unicode_len(), n);
        assert(rest@ =~= req@.skip(single@.len() as int));
        str_eq(rest.as_str(), name)
    } else {
        false
    }
}

/// Does some comma-separated requirement of the selector select `name`?
pub fn field_selector_matches_name(selector: &str, name: &str) -> (r: bool)
    ensures
        r == selector_selects(selector@, name@),
    decreases selector@.len(),
{
    proof {
        lemma_first_index(selector@, ',');
    }
    match find_char(selector, ',') {
        Some(k) => {
            let n = selector.unicode_len();
            let part = substring(selector, 0, k);
            assert(part@ =~= selector@.take(k as int));
            let trimmed = str_trim(part.as_str());
            if requirement_matches_name(trimmed.as_str(), name) {
                true
            } else {
                let rest = substring(selector, k + 1, n);
                assert(rest@ =~= selector@.skip(k + 1));
                field_selector_matches_name(rest.as_str(), name)
            }
        },
        None => {
            let trimmed = str_trim(selector);
            requirement_matches_name(trimmed.as_str(), name)
        },
    }
}

fn has_text(values: &Vec<String>, wanted: &str) -> (r: bool)
    ensures
        r == texts(values@).contains(wanted@),
{
    let ghost vs = texts(values@);
    let mut i: usize = 0;
    while i < values.len()
        invariant
            vs == texts(values@),
            i <= values.len(),
            forall|j: int| 0 <= j < i ==> #[trigger] vs[j] != wanted@,
        decreases values.len() - i,
    {
        assert(vs[i as int] == values@[i as int]@);
        if str_eq(values[i].as_str(), wanted) {
            assert(vs[i as int] == wanted@);
            return true;
        }
        i += 1;
    }
    false
}

/// Does the policy rule grant the access question?
pub fn rule_matches(rule: &PolicyRule, request: &AccessCheck) -> (r: bool)
    ensures
        r == rule_admits(rule@, request@),
{
    if !contains_or_star(&rule.verbs, request.verb.as_str()) {
        return false;
    }
    if let Some(url) = &request.non_resource_url {
        let ghost us = texts(rule.non_resource_urls@);
        let mut i: usize = 0;
        while i < rule.non_resource_urls.len()
            invariant
                us == texts(rule.non_resource_urls@),
                us == rule@.non_resource_urls,
                i <= rule.non_resource_urls.len(),
                request@.non_resource_url == Some(url@),
                has_entry_or_star(rule@.verbs, request@.verb),
                forall|j: int| 0 <= j < i ==> !url_pattern_covers(#[trigger] us[j], url@),
            decreases rule.non_resource_urls.len() - i,
        {
            assert(us[i as int] == rule.non_resource_urls@[i as int]@);
            if url_matches(rule.non_resource_urls[i].as_str(), url.as_str()) {
                assert(url_pattern_covers(rule@.non_resource_urls[i as int], request@.non_resource_url->0));
                return true;
            }
            i += 1;
        }
        return false;
    }
    if rule.non_resource_urls.len() > 0 && rule.resources.len() == 0 {
        return false;
    }
    if !contains_or_star(&rule.api_groups, request.api_group.as_str()) {
        return false;
    }
    let resource = match &request.resource {
        Some(r) => r.as_str(),
        None => {
            return false;
        },
    };
    if !resource_matches(&rule.resources, resource, opt_str(&request.subresource)) {
        return false;
    }
    if rule.resource_names.len() == 0 {
        return true;
    }
    let name = match &request.resource_name {
        Some(n) => n.as_str(),
        None => {
            return false;
        },
    };
    if !has_text(&rule.resource_names, name) {
        return false;
    }
    let verb = request.verb.as_str();
    if str_eq(verb, "create") && request.subresource.is_none() {
        false
    } else if str_eq(verb, "deletecollection") {
        false
    } else if str_eq(verb, "list") || str_eq(verb, "watch") {
        match &request.field_selector {
            Some(selector) => field_selector_matches_name(selector.as_str(), name),
            None => false,
        }
    } else {
        true
    }
}

fn groups_contain(groups: &[String], name: &str) -> (r: bool)
    ensures
        r == texts(groups@).contains(name@),
{
    let ghost gs = texts(groups@);
    let mut i: usize = 0;
    while i < groups.len()
        invariant
            gs == texts(groups@),
            i <= groups.len(),
            forall|j: int| 0 <= j < i ==> #[trigger] gs[j] != name@,
        decreases groups.len() - i,
    {
        assert(gs[i as int] == groups@[i as int]@);
        if str_eq(groups[i].as_str(), name) {
            assert(gs[i as int] == name@);
            return true;
        }
        i += 1;
    }
    false
}

fn opt_str_eq(a: Option<&str>, b: Option<&str>) -> (r: bool)
    ensures
        r == (match a {
            Some(x) => Some(x@),
            None => None::<Text>,
        } == match b {
            Some(x) => Some(x@),
            None => None::<Text>,
        }),
{
    match (a, b) {
        (Some(x), Some(y)) => str_eq(x, y),
        (None, None) => true,
        _ => false,
    }
}

/// Does a binding subject name the evaluated subject?
pub fn subject_matches(
    candidate: &RbacSubject,
    binding_namespace: Option<&str>,
    subject: &SubjectIdentity,
    groups: &[String],
) -> (r: bool)
    ensures
        r == subject_named(
            candidate@,
            match binding_namespace {
                Some(x) => Some(x@),
                None => None,
            },
            subject@,
            texts(groups@),
        ),
{
    let kind = candidate.kind.as_str();
    if str_eq(kind, "User") {
        str_eq(subject.kind.as_str(), "User") && str_eq(
            candidate.name.as_str(),
            subject.name.as_str(),
        )
    } else if str_eq(kind, "Group") {
        (str_eq(subject.kind.as_str(), "Group") && str_eq(
            candidate.name.as_str(),
            subject.name.as_str(),
        )) || groups_contain(groups, candidate.name.as_str())
    } else if str_eq(kind, "ServiceAccount") {
        let effective = match &candidate.namespace {
            Some(ns) => Some(ns.as_str()),
            None => binding_namespace,
        };
        str_eq(subject.kind.as_str(), "ServiceAccount") && str_eq(
            candidate.name.as_str(),
            subject.name.as_str(),
        ) && opt_str_eq(effective, opt_str(&subject.namespace))
    } else {
        false
    }
}

} // verus!
