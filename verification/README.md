# iota_logic

Verified core logic of the IOTA node, SDK and Move tooling, written in Verus.

- `src/` holds the library. The public functions there carry contracts that
  Verus proves: object and storage models, the coin deny list, dynamic-field
  id derivation and BCS framing, the global-storage-access bytecode check,
  address seeds, key files (read and written) and key conversions, client configuration, checkpoint
  archival bookkeeping and archive file headers, source files and their
  line/column locations, source migrations and their diffs, diagnostics
  filtering, the annotated value visitor, consensus batching, the
  tic-tac-toe example's game rules, the transaction orchestrator's
  decisions, the expansion pass that ends Move type checking (number
  literals fixed to their inferred types, uses turned into copies or moves),
  and the Move lexer and parser (files, address blocks, modules and their
  members, attributes, types, bindings, expressions, spec quantifiers). Calls into outside crates (fastcrypto, num-bigint,
  leb128, bcs, codespan-reporting, similar) stand behind small trusted
  wrappers whose doc comments say what is believed of them.
- `tests/` exercises the library with concrete values.
- `app/` is the ordinary Rust around it: file and network I/O, serde
  copies of library types, async drivers.
