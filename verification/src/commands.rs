//! The decisions of the command-line tool that do not touch files, the
//! cluster or the terminal.

use vstd::prelude::*;
use vstd::string::*;

use crate::model::{
    AccessMatrix, Binding, CheckView, EvidenceSummary, Role, Snapshot, Text, validation,
};
use crate::outside::{debug_quote, debug_quoted, json_string_at, parse_json_string_at};
use crate::text::{decimal, push_decimal, str_eq, str_trim, trim};

verus! {

/// The schema a snapshot must declare.
pub open spec fn snapshot_schema() -> Text {
    "kpe.snapshot/v1"@
}

/// Refuses a snapshot of another schema.
pub fn validate_snapshot(snapshot: &Snapshot) -> (r: Result<(), String>)
    ensures
        r is Ok <==> snapshot.schema_version@ == snapshot_schema(),
        r matches Err(e) ==> e@ == "unsupported snapshot schema "@ + debug_quoted(
            snapshot.schema_version@,
        ) + "; expected kpe.snapshot/v1"@,
{
    if str_eq(snapshot.schema_version.as_str(), "kpe.snapshot/v1") {
        Ok(())
    } else {
        let mut message = String::from_str("unsupported snapshot schema ");
        let quoted = debug_quote(snapshot.schema_version.as_str());
        message.append(quoted.as_str());
        message.append("; expected kpe.snapshot/v1");
        Err(message)
    }
}

/// The first question (counted from 0) that fails validation, if any.
pub open spec fn first_invalid(checks: Seq<CheckView>, n: int) -> Option<int>
    decreases n,
{
    if n <= 0 {
        None
    } else {
        match first_invalid(checks, n - 1) {
            Some(i) => Some(i),
            None => if validation(checks[n - 1]) is Err {
                Some(n - 1)
            } else {
                None
            },
        }
    }
}

/// Validates every question; the first failure is reported as
/// `matrix check <n>: <message>`, counting from 1.
pub fn validate_matrix(matrix: &AccessMatrix) -> (r: Result<(), String>)
    ensures
        r is Ok <==> first_invalid(matrix@, matrix@.len() as int) is None,
        r matches Err(e) ==> ({
            let i = first_invalid(matrix@, matrix@.len() as int)->0;
            e@ == "matrix check "@ + decimal((i + 1) as nat) + ": "@ + validation(matrix@[i])->Err_0
        }),
{
    let ghost cs = matrix@;
    let mut i: usize = 0;
    while i < matrix.checks.len()
        invariant
            i <= matrix.checks.len(),
            cs == matrix@,
            first_invalid(cs, i as int) is None,
        decreases matrix.checks.len() - i,
    {
        assert(cs[i as int] == matrix.checks@[i as int]@);
        match matrix.checks[i].validate() {
            Ok(()) => {},
            Err(message) => {
                proof {
                    assert(first_invalid(cs, i + 1) == Some(i as int));
                    lemma_first_invalid_stays(cs, i + 1, cs.len() as int);
                }
                let mut text = String::from_str("matrix check ");
                push_decimal(&mut text, i + 1);
                text.append(": ");
                text.append(message.as_str());
                return Err(text);
            },
        }
        i += 1;
    }
    Ok(())
}

proof fn lemma_first_invalid_stays(checks: Seq<CheckView>, m: int, n: int)
    requires
        0 <= m <= n,
        first_invalid(checks, m) is Some,
    ensures
        first_invalid(checks, n) == first_invalid(checks, m),
    decreases n - m,
{
    if n > m {
        lemma_first_invalid_stays(checks, m, n - 1);
    }
}

/// Which result makes the report command exit with status 3.
#[derive(Debug, Clone, Copy, PartialEq, Eq)]
pub enum FailOn {
    Allowed,
    Denied,
}

/// The exit status of a completed report: 3 when the selected kind of
/// result occurred, else 0.
pub fn exit_code(summary: &EvidenceSummary, fail_on: Option<FailOn>) -> (r: u8)
    ensures
        r == (if match fail_on {
            Some(FailOn::Allowed) => summary.allowed > 0,
            Some(FailOn::Denied) => summary.denied > 0,
            None => false,
        } {
            3u8
        } else {
            0u8
        }),
{
    let triggered = match fail_on {
        Some(FailOn::Allowed) => summary.allowed > 0,
        Some(FailOn::Denied) => summary.denied > 0,
        None => false,
    };
    if triggered {
        3
    } else {
        0
    }
}

/// The line that `kpe verify` prints for a valid packet.
pub open spec fn verification_text(label: Text, fingerprint: Text, trusted: bool) -> Text {
    if trusted {
        "VALID — signature, digest, and trusted signer match for "@ + label + ". Signer: "@
            + fingerprint + "."@
    } else {
        "VALID CONTENT — signature and digest match for "@ + label + ". Signer: "@ + fingerprint
            + ". Trust was not checked; pass --trusted-public-key or --trusted-fingerprint."@
    }
}

pub fn verification_message(label: &str, fingerprint: &str, trusted: bool) -> (r: String)
    ensures
        r@ == verification_text(label@, fingerprint@, trusted),
{
    let mut out = if trusted {
        String::from_str("VALID — signature, digest, and trusted signer match for ")
    } else {
        String::from_str("VALID CONTENT — signature and digest match for ")
    };
    out.append(label);
    out.append(". Signer: ");
    out.append(fingerprint);
    if trusted {
        out.append(".");
    } else {
        out.append(". Trust was not checked; pass --trusted-public-key or --trusted-fingerprint.");
    }
    out
}

/// Where `kubectl version -o json` reports the server version.
pub open spec fn server_version_pointer() -> Text {
    "/serverVersion/gitVersion"@
}

/// What a snapshot records of the text `kubectl version -o json` printed:
/// the refusal `kubectl version returned invalid JSON: <cause>` when the
/// text is not JSON, otherwise the reported server version, or `unknown`
/// when the cluster reported none.
pub open spec fn recorded_server_version(version_json: Text) -> Result<Text, Text> {
    match json_string_at(version_json, server_version_pointer()) {
        Err(e) => Err("kubectl version returned invalid JSON: "@ + e),
        Ok(Some(v)) => Ok(v),
        Ok(None) => Ok("unknown"@),
    }
}

/// A collected snapshot from its parts: the context is the chosen one
/// (`unknown` when none could be found), trimmed; the server version is
/// read from the text that `kubectl version -o json` printed, and the
/// snapshot is refused when that text is not JSON.
pub fn assemble_snapshot(
    collected_at: String,
    context: Option<String>,
    version_json: &str,
    roles: Vec<Role>,
    cluster_roles: Vec<Role>,
    role_bindings: Vec<Binding>,
    cluster_role_bindings: Vec<Binding>,
) -> (r: Result<Snapshot, String>)
    ensures
        r is Err <==> recorded_server_version(version_json@) is Err,
        r matches Err(e) ==> recorded_server_version(version_json@) == Err::<Text, Text>(e@),
        r matches Ok(snap) ==> {
            &&& snap.schema_version@ == snapshot_schema()
            &&& snap.collected_at@ == collected_at@
            &&& snap.collector_version@ == "0.1.0"@
            &&& snap.context@ == trim(
                match context {
                    Some(c) => c@,
                    None => "unknown"@,
                },
            )
            &&& recorded_server_version(version_json@) == Ok::<Text, Text>(snap.server_version@)
            &&& snap.roles == roles
            &&& snap.cluster_roles == cluster_roles
            &&& snap.role_bindings == role_bindings
            &&& snap.cluster_role_bindings == cluster_role_bindings
        },
{
    let pointer = "/serverVersion/gitVersion";
    let server_version = match parse_json_string_at(version_json, pointer) {
        Err(cause) => {
            let mut message = String::from_str("kubectl version returned invalid JSON: ");
            message.append(cause.as_str());
            return Err(message);
        },
        Ok(Some(v)) => v,
        Ok(None) => String::from_str("unknown"),
    };
    let context = match &context {
        Some(c) => str_trim(c.as_str()),
        None => str_trim("unknown"),
    };
    Ok(
        Snapshot {
            schema_version: String::from_str("kpe.snapshot/v1"),
            collected_at: collected_at,
            collector_version: String::from_str("0.1.0"),
            context: context,
            server_version: server_version,
            roles: roles,
            cluster_roles: cluster_roles,
            role_bindings: role_bindings,
            cluster_role_bindings: cluster_role_bindings,
        },
    )
}

} // verus!
