# javetas

A small command-line tool that scaffolds Java learning projects (`new`, `add`,
`build`, `run`, `update`). Its logic is a library verified with Verus; the
program around it lives in `app/`.

- `src/args.rs` – the command line, read into a `Command`.
- `src/templates.rs` – the files of a new project or class, and the help text.
- `src/project.rs` – a project's `.javetas` configuration, its paths (joined
  as on Unix or Windows, as the caller says) and the class names given to
  `java`.
- `src/commands.rs` – the checks on names and the files that `new` and `add`
  create.
- `src/update.rs` – release assets, URLs, version tags and the update decision.
- `src/style.rs` – terminal colours.
- `src/text.rs` – character-level string helpers and their specifications.
- `src/laws.rs` – properties across functions, such as the configuration that
  `new` writes being read back unchanged.
- `app/main.rs` – prompts, the file system, `javac`/`java`, downloads.
