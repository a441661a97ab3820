//! The auditor-readable Markdown form of an evidence packet.

use vstd::prelude::*;
use vstd::string::*;
use vstd::utf8::{decode_utf8, encode_utf8, is_char_boundary};

use crate::model::{
    CheckResult, CheckResultView, EvidenceReport, EvidenceSummary, GrantProof, GrantView,
    ReportView, SignatureView, Text, label_text, target_text, texts,
};
use crate::outside::unicode_lowercase;
use crate::text::{chars_of, decimal, find_char, first_index, has_char, lemma_first_index, push_decimal, substring};

verus! {

// ---------------------------------------------------------------------------
// Specification of the text
// ---------------------------------------------------------------------------

/// `|` and backquote escaped with a backslash, for a table cell.
pub open spec fn escape_table_text(s: Text) -> Text
    decreases s.len(),
{
    if s.len() == 0 {
        Seq::empty()
    } else {
        escape_table_text(s.drop_last()) + if s.last() == '|' {
            seq!['\\', '|']
        } else if s.last() == '`' {
            seq!['\\', '`']
        } else {
            seq![s.last()]
        }
    }
}

/// Backquote escaped with a backslash, for inline code.
pub open spec fn escape_inline_text(s: Text) -> Text
    decreases s.len(),
{
    if s.len() == 0 {
        Seq::empty()
    } else {
        escape_inline_text(s.drop_last()) + if s.last() == '`' {
            seq!['\\', '`']
        } else {
            seq![s.last()]
        }
    }
}

/// The first 16 bytes of a text (fewer if it is shorter), as characters.
pub open spec fn byte_prefix16(s: Text) -> Text {
    let bytes = encode_utf8(s);
    decode_utf8(bytes.take(if bytes.len() < 16 { bytes.len() as int } else { 16 }))
}

/// The 16-byte cut of a signature falls between characters (always so for
/// Base64 text).
pub open spec fn cut_at_char_boundary(s: Text) -> bool {
    let bytes = encode_utf8(s);
    is_char_boundary(bytes, if bytes.len() < 16 { bytes.len() as int } else { 16 })
}

pub open spec fn signature_lines(s: Option<SignatureView>) -> Text {
    match s {
        Some(sig) => "**Packet signature:** Ed25519 `"@ + byte_prefix16(sig.signature) + "`…  \n"@
            + ("**Signed content SHA-256:** `"@ + sig.content_sha256 + "`  \n"@),
        None => "**Packet signature:** Not signed  \n"@,
    }
}

pub open spec fn summary_line(s: EvidenceSummary) -> Text {
    decimal(s.total as nat) + " checks: **"@ + decimal(s.allowed as nat) + " allowed**, **"@
        + decimal(s.denied as nat) + " denied**, **"@ + decimal(s.uncertain as nat)
        + " uncertain**.\n\n"@
}

/// Title, subject, source, signature, summary and the table header.
pub open spec fn head_text(r: ReportView, kind: Text) -> Text {
    "# Kubernetes permission evidence\n\n"@ + ("**Subject:** `"@ + label_text(kind, r.subject)
        + "`  \n"@) + ("**Collected:** "@ + r.source.collected_at + "  \n"@) + ("**Context:** `"@
        + escape_inline_text(r.source.context) + "`  \n"@) + ("**Kubernetes:** `"@
        + escape_inline_text(r.source.server_version) + "`  \n"@) + ("**Snapshot SHA-256:** `"@
        + r.source.snapshot_sha256 + "`  \n"@) + signature_lines(r.signature)
        + "\n## Summary\n\n"@ + summary_line(r.summary)
        + "| # | Decision | Verb | Resource or URL | Namespace | Grant paths |\n"@
        + "|---:|---|---|---|---|---:|\n"@
}

pub open spec fn decision_text(c: CheckResultView) -> Text {
    if c.allowed && c.uncertain {
        "ALLOWED ⚠"@
    } else if c.allowed {
        "ALLOWED"@
    } else {
        "DENIED"@
    }
}

pub open spec fn namespace_cell(ns: Option<Text>) -> Text {
    match ns {
        Some(v) => "`"@ + escape_table_text(v) + "`"@,
        None => "cluster / non-resource"@,
    }
}

/// Row `i` (counted from 0) of the summary table.
pub open spec fn table_row(i: int, c: CheckResultView) -> Text {
    "| "@ + decimal((i + 1) as nat) + " | **"@ + decision_text(c) + "** | `"@
        + escape_table_text(c.request.verb) + "` | `"@ + escape_table_text(target_text(c.request))
        + "` | "@ + namespace_cell(c.request.namespace) + " | "@ + decimal(c.grants.len()) + " |\n"@
}

pub open spec fn table_rows(cs: Seq<CheckResultView>, n: int) -> Text
    decreases n,
{
    if n <= 0 {
        Seq::empty()
    } else {
        table_rows(cs, n - 1) + table_row(n - 1, cs[n - 1])
    }
}

/// A line without the `\r` of a `\r\n` ending.
pub open spec fn strip_cr(line: Text) -> Text {
    if line.len() > 0 && line.last() == '\r' {
        line.drop_last()
    } else {
        line
    }
}

/// Each line of the text (split as `str::lines` splits it), indented by
/// three spaces and ended by a newline.
pub open spec fn indented_lines(s: Text) -> Text
    decreases s.len(),
{
    if s.len() == 0 {
        Seq::empty()
    } else if has_char(s, '\n') {
        let k = first_index(s, '\n');
        if 0 <= k < s.len() {
            "   "@ + strip_cr(s.take(k)) + "\n"@ + indented_lines(s.skip(k + 1))
        } else {
            Seq::empty()
        }
    } else {
        "   "@ + s + "\n"@
    }
}

pub open spec fn binding_text(g: GrantView) -> Text {
    match g.binding_namespace {
        Some(ns) => g.binding_kind + "/"@ + g.binding_name + " in "@ + ns,
        None => g.binding_kind + "/"@ + g.binding_name,
    }
}

/// Grant `gi` (from 0) of a result, with its rule as pretty JSON.
pub open spec fn grant_text(gi: int, g: GrantView, rule_json: Text) -> Text {
    decimal((gi + 1) as nat) + ". `"@ + g.matched_subject.kind + "` matches `"@ + binding_text(g)
        + "` → `"@ + g.role_kind + "/"@ + g.role_name + "` rule "@ + decimal(g.rule_index as nat)
        + "\n\n"@ + "   ```json\n"@ + indented_lines(rule_json) + "   ```\n\n"@
        + match g.uncertainty {
        Some(note) => "   ⚠ **Uncertain:** "@ + note + ".\n\n"@,
        None => Seq::empty(),
    }
}

pub open spec fn grant_texts(gs: Seq<GrantView>, jsons: Seq<Text>, n: int) -> Text
    decreases n,
{
    if n <= 0 {
        Seq::empty()
    } else {
        grant_texts(gs, jsons, n - 1) + grant_text(n - 1, gs[n - 1], jsons[n - 1])
    }
}

/// The causal proof of result `i` (from 0).
pub open spec fn proof_text(i: int, c: CheckResultView, jsons: Seq<Text>) -> Text {
    let ns = match c.request.namespace {
        Some(v) => v,
        None => "cluster / non-resource"@,
    };
    let head = "### "@ + decimal((i + 1) as nat) + ". "@ + c.request.verb + " `"@ + target_text(
        c.request,
    ) + "` in `"@ + ns + "`\n\n"@;
    if c.grants.len() == 0 {
        head + "**DENIED** — no collected RBAC binding and rule matched this request.\n\n"@
    } else {
        head + if c.uncertain {
            "**ALLOWED, WITH UNCERTAINTY**\n\n"@
        } else {
            "**ALLOWED**\n\n"@
        } + grant_texts(c.grants, jsons, c.grants.len() as int)
    }
}

pub open spec fn proof_texts(cs: Seq<CheckResultView>, jsons: Seq<Seq<Text>>, n: int) -> Text
    decreases n,
{
    if n <= 0 {
        Seq::empty()
    } else {
        proof_texts(cs, jsons, n - 1) + proof_text(n - 1, cs[n - 1], jsons[n - 1])
    }
}

pub open spec fn code_text(g: Text) -> Text {
    "`"@ + escape_inline_text(g) + "`"@
}

/// The groups as inline code, separated by `, `.
pub open spec fn group_list(gs: Seq<Text>, n: int) -> Text
    decreases n,
{
    if n <= 0 {
        Seq::empty()
    } else if n == 1 {
        code_text(gs[0])
    } else {
        group_list(gs, n - 1) + ", "@ + code_text(gs[n - 1])
    }
}

pub open spec fn limitation_lines(ls: Seq<Text>, n: int) -> Text
    decreases n,
{
    if n <= 0 {
        Seq::empty()
    } else {
        limitation_lines(ls, n - 1) + ("- "@ + ls[n - 1] + "\n"@)
    }
}

/// Inventory, evaluated groups, limitations and the closing line.
pub open spec fn tail_text(r: ReportView) -> Text {
    "## Scope and limitations\n\n"@ + ("Inventory: "@ + decimal(r.source.role_count as nat)
        + " Roles, "@ + decimal(r.source.cluster_role_count as nat) + " ClusterRoles, "@ + decimal(
        r.source.role_binding_count as nat,
    ) + " RoleBindings, "@ + decimal(r.source.cluster_role_binding_count as nat)
        + " ClusterRoleBindings.\n\n"@) + (if r.evaluated_groups.len() == 0 {
        Seq::empty()
    } else {
        "Evaluated group memberships: "@ + group_list(
            r.evaluated_groups,
            r.evaluated_groups.len() as int,
        ) + ".\n\n"@
    }) + limitation_lines(r.limitations, r.limitations.len() as int)
        + "\n---\nGenerated by Kube Permission Evidence. Verify the JSON companion with `kpe verify`.\n"@
}

/// The whole Markdown packet; `kind` stands for the subject's kind as the
/// label writes it, `jsons[i][j]` for the pretty JSON of rule `j` of check
/// `i`.
pub open spec fn markdown_text(r: ReportView, kind: Text, jsons: Seq<Seq<Text>>) -> Text {
    head_text(r, kind) + table_rows(r.checks, r.checks.len() as int) + "\n## Causal proof\n\n"@
        + (if r.checks.len() == 0 {
        "The supplied matrix contained no checks.\n\n"@
    } else {
        Seq::empty()
    }) + proof_texts(r.checks, jsons, r.checks.len() as int) + tail_text(r)
}

pub open spec fn json_views(v: Seq<Vec<String>>) -> Seq<Seq<Text>> {
    v.map_values(|x: Vec<String>| texts(x@))
}

// ---------------------------------------------------------------------------
// Executable rendering
// ---------------------------------------------------------------------------

/// Escapes `|` and backquote for a Markdown table cell.
pub fn escape_table(value: &str) -> (r: String)
    ensures
        r@ == escape_table_text(value@),
{
    let chars = chars_of(value);
    let mut out = String::new();
    let mut i: usize = 0;
    while i < chars.len()
        invariant
            chars@ == value@,
            i <= chars.len(),
            out@ == escape_table_text(value@.take(i as int)),
        decreases chars.len() - i,
    {
        let c = chars[i];
        if c == '|' {
            out.append("\\|");
            proof { reveal_strlit("\\|"); }
        } else if c == '`' {
            out.append("\\`");
            proof { reveal_strlit("\\`"); }
        } else {
            let one = substring(value, i, i + 1);
            out.append(one.as_str());
            assert(one@ =~= seq![c]);
        }
        assert(value@.take(i + 1).drop_last() =~= value@.take(i as int));
        i += 1;
    }
    assert(value@.take(chars.len() as int) =~= value@);
    out
}

/// Escapes backquote for Markdown inline code.
pub fn escape_inline(value: &str) -> (r: String)
    ensures
        r@ == escape_inline_text(value@),
{
    let chars = chars_of(value);
    let mut out = String::new();
    let mut i: usize = 0;
    while i < chars.len()
        invariant
            chars@ == value@,
            i <= chars.len(),
            out@ == escape_inline_text(value@.take(i as int)),
        decreases chars.len() - i,
    {
        let c = chars[i];
        if c == '`' {
            out.append("\\`");
            proof { reveal_strlit("\\`"); }
        } else {
            let one = substring(value, i, i + 1);
            out.append(one.as_str());
            assert(one@ =~= seq![c]);
        }
        assert(value@.take(i + 1).drop_last() =~= value@.take(i as int));
        i += 1;
    }
    assert(value@.take(chars.len() as int) =~= value@);
    out
}

fn decimal_string(n: usize) -> (r: String)
    ensures
        r@ == decimal(n as nat),
{
    let mut s = String::new();
    push_decimal(&mut s, n);
    assert(s@ =~= decimal(n as nat));
    s
}

fn signature_prefix(signature: &str) -> (r: String)
    requires
        cut_at_char_boundary(signature@),
    ensures
        r@ == byte_prefix16(signature@),
{
    broadcast use vstd::utf8::encode_utf8_decode_utf8;

    let n = signature.as_bytes().len();
    assert(n == encode_utf8(signature@).len());
    let m: usize = if n < 16 {
        n
    } else {
        16
    };
    let (prefix, _rest) = signature.split_at(m);
    assert(encode_utf8(prefix@) == encode_utf8(signature@).subrange(0, m as int));
    assert(encode_utf8(signature@).take(m as int) =~= encode_utf8(signature@).subrange(0, m as int));
    String::from_str(prefix)
}

fn head_section(report: &EvidenceReport) -> (r: String)
    requires
        report.signature matches Some(s) ==> cut_at_char_boundary(s.signature@),
    ensures
        r@ == head_text(report@, unicode_lowercase(report.subject.kind@)),
{
    let mut out = String::from_str("# Kubernetes permission evidence\n\n");
    let mut line = String::from_str("**Subject:** `");
    let label = report.subject.label();
    line.append(label.as_str());
    line.append("`  \n");
    out.append(line.as_str());
    let mut line = String::from_str("**Collected:** ");
    line.append(report.source.collected_at.as_str());
    line.append("  \n");
    out.append(line.as_str());
    let mut line = String::from_str("**Context:** `");
    let escaped = escape_inline(report.source.context.as_str());
    line.append(escaped.as_str());
    line.append("`  \n");
    out.append(line.as_str());
    let mut line = String::from_str("**Kubernetes:** `");
    let escaped = escape_inline(report.source.server_version.as_str());
    line.append(escaped.as_str());
    line.append("`  \n");
    out.append(line.as_str());
    let mut line = String::from_str("**Snapshot SHA-256:** `");
    line.append(report.source.snapshot_sha256.as_str());
    line.append("`  \n");
    out.append(line.as_str());
    let mut sig_lines = match &report.signature {
        Some(signature) => {
            let mut s = String::from_str("**Packet signature:** Ed25519 `");
            let prefix = signature_prefix(signature.signature.as_str());
            s.append(prefix.as_str());
            s.append("`…  \n");
            let mut second = String::from_str("**Signed content SHA-256:** `");
            second.append(signature.content_sha256.as_str());
            second.append("`  \n");
            s.append(second.as_str());
            s
        },
        None => String::from_str("**Packet signature:** Not signed  \n"),
    };
    out.append(sig_lines.as_str());
    out.append("\n## Summary\n\n");
    let mut summary = decimal_string(report.summary.total);
    summary.append(" checks: **");
    let d = decimal_string(report.summary.allowed);
    summary.append(d.as_str());
    summary.append(" allowed**, **");
    let d = decimal_string(report.summary.denied);
    summary.append(d.as_str());
    summary.append(" denied**, **");
    let d = decimal_string(report.summary.uncertain);
    summary.append(d.as_str());
    summary.append(" uncertain**.\n\n");
    out.append(summary.as_str());
    out.append("| # | Decision | Verb | Resource or URL | Namespace | Grant paths |\n");
    out.append("|---:|---|---|---|---|---:|\n");
    out
}

fn table_row_exec(index: usize, result: &CheckResult) -> (r: String)
    requires
        index < usize::MAX,
    ensures
        r@ == table_row(index as int, result@),
{
    let mut row = String::from_str("| ");
    let d = decimal_string(index + 1);
    row.append(d.as_str());
    row.append(" | **");
    let decision = if result.allowed && result.uncertain {
        "ALLOWED ⚠"
    } else if result.allowed {
        "ALLOWED"
    } else {
        "DENIED"
    };
    row.append(decision);
    row.append("** | `");
    let verb = escape_table(result.request.verb.as_str());
    row.append(verb.as_str());
    row.append("` | `");
    let target = result.request.target();
    let target = escape_table(target.as_str());
    row.append(target.as_str());
    row.append("` | ");
    let cell = match &result.request.namespace {
        Some(v) => {
            let mut c = String::from_str("`");
            let e = escape_table(v.as_str());
            c.append(e.as_str());
            c.append("`");
            c
        },
        None => String::from_str("cluster / non-resource"),
    };
    row.append(cell.as_str());
    row.append(" | ");
    let d = decimal_string(result.grants.len());
    row.append(d.as_str());
    row.append(" |\n");
    assert(result@.grants.len() == result.grants.len());
    row
}

/// Appends the indented lines of a JSON text.
fn push_indented_lines(out: &mut String, json: &str)
    ensures
        final(out)@ == old(out)@ + indented_lines(json@),
    decreases json@.len(),
{
    proof {
        lemma_first_index(json@, '\n');
    }
    let n = json.unicode_len();
    if n == 0 {
        assert(old(out)@ + indented_lines(json@) =~= old(out)@);
        return;
    }
    match find_char(json, '\n') {
        Some(k) => {
            let mut line = substring(json, 0, k);
            let chars = chars_of(line.as_str());
            if chars.len() > 0 && chars[chars.len() - 1] == '\r' {
                line = substring(json, 0, k - 1);
                assert(line@ =~= strip_cr(json@.take(k as int)));
            } else {
                assert(line@ =~= strip_cr(json@.take(k as int)));
            }
            let mut text = String::from_str("   ");
            text.append(line.as_str());
            text.append("\n");
            let ghost before = out@;
            out.append(text.as_str());
            let rest = substring(json, k + 1, n);
            assert(rest@ =~= json@.skip(k + 1));
            push_indented_lines(out, rest.as_str());
            assert(out@ =~= before + indented_lines(json@));
        },
        None => {
            let mut text = String::from_str("   ");
            text.append(json);
            text.append("\n");
            out.append(text.as_str());
        },
    }
}

fn grant_exec(index: usize, grant: &GrantProof, rule_json: &str) -> (r: String)
    requires
        index < usize::MAX,
    ensures
        r@ == grant_text(index as int, grant@, rule_json@),
{
    let mut out = decimal_string(index + 1);
    out.append(". `");
    out.append(grant.matched_subject.kind.as_str());
    out.append("` matches `");
    let mut binding = grant.binding_kind.clone();
    binding.append("/");
    binding.append(grant.binding_name.as_str());
    if let Some(ns) = &grant.binding_namespace {
        binding.append(" in ");
        binding.append(ns.as_str());
    }
    out.append(binding.as_str());
    out.append("` → `");
    out.append(grant.role_kind.as_str());
    out.append("/");
    out.append(grant.role_name.as_str());
    out.append("` rule ");
    let d = decimal_string(grant.rule_index);
    out.append(d.as_str());
    out.append("\n\n");
    out.append("   ```json\n");
    let mut lines = String::new();
    push_indented_lines(&mut lines, rule_json);
    assert(lines@ =~= indented_lines(rule_json@));
    out.append(lines.as_str());
    out.append("   ```\n\n");
    let mut note_text = String::new();
    if let Some(note) = &grant.uncertainty {
        note_text.append("   ⚠ **Uncertain:** ");
        note_text.append(note.as_str());
        note_text.append(".\n\n");
    }
    out.append(note_text.as_str());
    assert(out@ =~= grant_text(index as int, grant@, rule_json@));
    out
}

fn proof_exec(index: usize, result: &CheckResult, rule_json: &Vec<String>) -> (r: String)
    requires
        index < usize::MAX,
        rule_json.len() == result.grants.len(),
    ensures
        r@ == proof_text(index as int, result@, texts(rule_json@)),
{
    let mut head = String::from_str("### ");
    let d = decimal_string(index + 1);
    head.append(d.as_str());
    head.append(". ");
    head.append(result.request.verb.as_str());
    head.append(" `");
    let target = result.request.target();
    head.append(target.as_str());
    head.append("` in `");
    match &result.request.namespace {
        Some(v) => head.append(v.as_str()),
        None => head.append("cluster / non-resource"),
    }
    head.append("`\n\n");
    if result.grants.len() == 0 {
        head.append("**DENIED** — no collected RBAC binding and rule matched this request.\n\n");
        return head;
    }
    let verdict = if result.uncertain {
        "**ALLOWED, WITH UNCERTAINTY**\n\n"
    } else {
        "**ALLOWED**\n\n"
    };
    let mut out = head;
    out.append(verdict);
    let ghost gs = result@.grants;
    let ghost js = texts(rule_json@);
    let mut grants_text = String::new();
    let mut j: usize = 0;
    while j < result.grants.len()
        invariant
            j <= result.grants.len(),
            rule_json.len() == result.grants.len(),
            gs == result@.grants,
            js == texts(rule_json@),
            grants_text@ == grant_texts(gs, js, j as int),
        decreases result.grants.len() - j,
    {
        assert(gs[j as int] == result.grants@[j as int]@);
        assert(js[j as int] == rule_json@[j as int]@);
        let g = grant_exec(j, &result.grants[j], rule_json[j].as_str());
        grants_text.append(g.as_str());
        j += 1;
    }
    out.append(grants_text.as_str());
    assert(out@ =~= proof_text(index as int, result@, texts(rule_json@)));
    out
}

fn tail_section(report: &EvidenceReport) -> (r: String)
    ensures
        r@ == tail_text(report@),
{
    let mut out = String::from_str("## Scope and limitations\n\n");
    let mut inventory = String::from_str("Inventory: ");
    let d = decimal_string(report.source.role_count);
    inventory.append(d.as_str());
    inventory.append(" Roles, ");
    let d = decimal_string(report.source.cluster_role_count);
    inventory.append(d.as_str());
    inventory.append(" ClusterRoles, ");
    let d = decimal_string(report.source.role_binding_count);
    inventory.append(d.as_str());
    inventory.append(" RoleBindings, ");
    let d = decimal_string(report.source.cluster_role_binding_count);
    inventory.append(d.as_str());
    inventory.append(" ClusterRoleBindings.\n\n");
    out.append(inventory.as_str());
    let ghost gs = texts(report.evaluated_groups@);
    let mut groups = String::new();
    if report.evaluated_groups.len() > 0 {
        groups.append("Evaluated group memberships: ");
        let mut list = String::new();
        let mut i: usize = 0;
        while i < report.evaluated_groups.len()
            invariant
                i <= report.evaluated_groups.len(),
                gs == texts(report.evaluated_groups@),
                list@ == group_list(gs, i as int),
            decreases report.evaluated_groups.len() - i,
        {
            assert(gs[i as int] == report.evaluated_groups@[i as int]@);
            let mut code = String::from_str("`");
            let e = escape_inline(report.evaluated_groups[i].as_str());
            code.append(e.as_str());
            code.append("`");
            if i > 0 {
                list.append(", ");
            }
            list.append(code.as_str());
            i += 1;
            assert(list@ =~= group_list(gs, i as int));
        }
        groups.append(list.as_str());
        groups.append(".\n\n");
    }
    out.append(groups.as_str());
    let ghost ls = texts(report.limitations@);
    let mut lims = String::new();
    let mut k: usize = 0;
    while k < report.limitations.len()
        invariant
            k <= report.limitations.len(),
            ls == texts(report.limitations@),
            lims@ == limitation_lines(ls, k as int),
        decreases report.limitations.len() - k,
    {
        assert(ls[k as int] == report.limitations@[k as int]@);
        let mut line = String::from_str("- ");
        line.append(report.limitations[k].as_str());
        line.append("\n");
        lims.append(line.as_str());
        k += 1;
    }
    out.append(lims.as_str());
    out.append(
        "\n---\nGenerated by Kube Permission Evidence. Verify the JSON companion with `kpe verify`.\n",
    );
    out
}

/// The Markdown evidence packet. `rule_json[i][j]` is the pretty JSON of
/// the rule of grant `j` of check `i`, which the packet quotes as given:
/// the quoted rules are the packet's own only when the caller serializes
/// those rules.
pub fn markdown(report: &EvidenceReport, rule_json: &Vec<Vec<String>>) -> (r: String)
    requires
        rule_json.len() == report.checks.len(),
        forall|i: int|
            0 <= i < report.checks.len() ==> (#[trigger] rule_json@[i]).len()
                == report.checks@[i].grants.len(),
        report.signature matches Some(s) ==> cut_at_char_boundary(s.signature@),
    ensures
        r@ == markdown_text(
            report@,
            unicode_lowercase(report.subject.kind@),
            json_views(rule_json@),
        ),
{
    let mut out = head_section(report);
    let ghost cs = report@.checks;
    let ghost js = json_views(rule_json@);
    let mut rows = String::new();
    let mut i: usize = 0;
    while i < report.checks.len()
        invariant
            i <= report.checks.len(),
            cs == report@.checks,
            rows@ == table_rows(cs, i as int),
        decreases report.checks.len() - i,
    {
        assert(cs[i as int] == report.checks@[i as int]@);
        let row = table_row_exec(i, &report.checks[i]);
        rows.append(row.as_str());
        i += 1;
    }
    out.append(rows.as_str());
    out.append("\n## Causal proof\n\n");
    if report.checks.len() == 0 {
        out.append("The supplied matrix contained no checks.\n\n");
    }
    let mut proofs = String::new();
    let mut k: usize = 0;
    while k < report.checks.len()
        invariant
            k <= report.checks.len(),
            cs == report@.checks,
            js == json_views(rule_json@),
            rule_json.len() == report.checks.len(),
            forall|i: int|
                0 <= i < report.checks.len() ==> (#[trigger] rule_json@[i]).len()
                    == report.checks@[i].grants.len(),
            proofs@ == proof_texts(cs, js, k as int),
        decreases report.checks.len() - k,
    {
        assert(cs[k as int] == report.checks@[k as int]@);
        assert(js[k as int] == texts(rule_json@[k as int]@));
        let p = proof_exec(k, &report.checks[k], &rule_json[k]);
        proofs.append(p.as_str());
        k += 1;
    }
    out.append(proofs.as_str());
    let tail = tail_section(report);
    out.append(tail.as_str());
    assert(out@ =~= markdown_text(
        report@,
        unicode_lowercase(report.subject.kind@),
        json_views(rule_json@),
    ));
    out
}

} // verus!
