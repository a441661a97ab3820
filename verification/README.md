# Kube Permission Evidence

`kpe` explains effective Kubernetes RBAC access as audit evidence: for a
subject and a bounded matrix of access questions it reports every
RoleBinding, ClusterRoleBinding, subject entry and rule that grants each
question, and writes the result as a JSON packet (optionally signed with
Ed25519) and a Markdown report.

The evaluation is written in Verus and proved against its specification.

- `src/` is the verified library: subjects and their derived groups
  (`subject`), rule and subject matching (`rules`), the evaluation and the
  order of grant paths (`evaluator`), packet signatures (`packet`), the
  Markdown report (`render`), the command decisions (`commands`) and the
  properties proved of every evaluation (`laws`). The calls into std and
  into outside crates (SHA-256, hex, Base64, Ed25519, the clock) go through
  the trusted items of `outside`, each with the contract it is believed to
  meet.
- `app/` is the command-line tool: argument parsing, files, kubectl, key
  generation and the JSON forms of the library's types.
- `tests/` runs the library on concrete RBAC snapshots and packets.
