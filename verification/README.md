# deos_mcpd

Governance proxy for Model Context Protocol (MCP) servers. It sits between an
MCP client and server, forwards every line untouched, and writes a permit before
and a receipt after every governed call: a `tools/call` request, with an id and
parameters, alone or in a batch.

- **Permit**: names the session, tool, hashed arguments, request id and time.
  Its id is the BLAKE3 hash of these.
- **Receipt**: carries the permit's id, the hashed result, the status and the
  duration.
- **Policy**: rules on tools and arguments, of which the first that fits decides
  a call.
- **Approvals**: the calls that wait for a person's decision.

`src/` is the library, verified with Verus. `app/` is the program around it:
arguments, files, processes, channels and HTTP.

| Module | Contents |
| --- | --- |
| `json` | what a JSON document says; the operations used on `serde_json::Value` |
| `jsonrpc` | the parts of a message |
| `receipts` | records, content addresses, timestamps |
| `books` | what a session records: calls, responses, steps and their trail |
| `proxy` | the ledger that keeps the books, and the steps of the traffic |
| `trail` | what holds of every audit trail |
| `traffic` | what holds of every run of events in both directions |
| `policy` | rules and verdicts |
| `approval`, `control` | waiting calls, and the answers of the control API |
| `startup` | what is made of the program's arguments |
| `table`, `text`, `clock` | string-keyed tables, strings, moments and durations |

Each contract rests on what it says of `serde_json`, `blake3`, `regex`, `uuid`
and `std` in the items marked `external_body` or `assume_specification`; their
comments say what is taken on trust.
