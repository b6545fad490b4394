# pkl_bindgen

Rust support for the [Pkl](https://pkl-lang.org) configuration language,
with its logic verified by Verus.

- `src/` — the verified library:
  - `codegen/` — reading Pkl schemas (classes, type aliases, properties) and
    generating Rust source from them;
  - `msgapi`, `server` — the messages of the `pkl server` protocol, the
    framing of what the server writes, and the host's answers;
  - `project` — Pkl projects and the message that hands one to the server;
  - `cli_evaluator`, `module_source`, `reader`, `util` — the decisions of
    the evaluators: arguments, sources, readers, locating `pkl`;
  - `derive_plan` — what the `PklDecode` derive reads for each field;
  - `syntax/` — the lexer, expressions over its tokens, operators,
    identifiers, lexing errors, string-literal extraction and error spans;
  - `store` — the name-to-value store of a parsed module;
  - `text`, `ordered`, `format` — character-sequence, ordered-map and
    number-formatting building blocks.
- `app/` — the `pkl-bindgen` command line, the processes and channels of
  the evaluators, the MessagePack and JSON value decoders and serde glue.
- `tests/` — tests of the library.
