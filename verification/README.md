# peas

A flat-file issue tracker for humans and robots: tickets ("peas") live as
markdown files with TOML, YAML or JSON frontmatter in `.peas/`, next to the code.
There is a command line, a GraphQL interface, a memory store for project
knowledge and attachments per ticket.

## Layout

- `src/` is the library, verified with Verus. It holds the decisions of
  the tracker with their contracts: ids and file names, framing of ticket
  files, filters, search, suggestions, roadmaps, bulk edits, archiving,
  renames, configuration lookup and migration, the checks of `doctor`, the
  beans exchange format and the GraphQL resolvers' logic. Calls into other
  crates (regex, slug, nanoid, chrono, toml, serde_json) stand behind small trusted
  wrappers whose contracts are documented where they are declared.
- `tests/` exercises the library on concrete values.
- `app/` is the program around it: argument parsing (clap), reading and
  writing files, serde (de)serialisation of tickets and configuration,
  terminal output, logging and the HTTP server.

The laws the library proves stand as public proof functions next to the
code they speak of, for example `framing_round_trip` (markdown),
`beans_round_trip` (beans), `written_file_is_found` and
`sequential_counter_continues` (storage), `suggestions_actionable`
(suggest), `toml_migration_is_current`, `toml_migration_lines_stable` and
`toml_migration_idempotent` (migrate); others are stated in the `ensures`
of the functions they are about, such as what the cache finds by id after
`update_pea`, or that the fields `beans_fields` exports read back through
`beans_to_pea` as the same ticket.
