# oxidite

The logic of the Oxidite web framework and its command-line tool, written in
Verus and verified: routing, CORS, versioning, request extraction and error
responses; configuration loading and environment overrides; the query
builders, schemas, migrations, relations, cache and model metadata of the
ORM; GraphQL context and resolver registry; mail messages; and the decisions
of the CLI (naming, code generation, project scaffolding, SQL scripts,
process bookkeeping, hot reload, maintenance commands).

- `src/` is the verified library. Calls into outside crates (regex,
  serde_json, syn, chrono, mime_guess, http, num_cpus) go through small
  trusted wrappers whose contracts are stated next to them.
- `app/` is the `oxidite` binary: argument parsing, files, processes, the
  HTTP server loop and the database connection, handing plain values to the
  library and acting on what it returns.
- `tests/` run the library on concrete values.
