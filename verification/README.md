# ledgerr_mcp

The verified core of the ledgerr MCP server, a bookkeeping and tax-preparation
service driven over the Model Context Protocol. The executable functions in
`src/` state what they do in `requires`/`ensures` contracts. Those that call
std or an outside crate directly are small trusted wrappers (in `text`,
`clock`, `decimal`, `hash` and `service`): their contracts are believed, not
proved. Every other function's body is proved against its contract.

## Layout

- `src/` — the library:
  - `ledger`, `batch_review`, `work_queue`, `schedule`, `coverage`, `export`:
    transactions, classifications with their audit trail, batch and bulk
    classification, the review queue, tax schedules, statement coverage and
    the sheets of the accountant's workbook;
  - `capital_loss`, `feie`, `fbar`: tax computations on exact decimals (`decimal`);
  - `events`, `schema`, `ontology`, `openmetadata`, `ofx`: lifecycle events,
    the kind registry, ontology identities and imports;
  - `contract`, `mcp_adapter`, `rpc`, `gate`, `service`: the published tool
    catalogue, request routing, the policy check's table and answers, and the
    path rules of the workbook's files;
  - `text`, `strmap`, `hash`, `clock`, `decimal`: text, ordered maps, and the
    calls into std, blake3, chrono and rust_decimal, each behind a small
    trusted wrapper whose contract states what the crate documents.
- `tests/` — tests of the library on concrete values.
- `app/` — what is not proved: the JSON copies of the library's types,
  files on disk, the xlsx workbook, and the depreciation schedule (floating
  point). There is no server: the MCP transport, the request envelope and
  the service behind it are not part of this crate.
