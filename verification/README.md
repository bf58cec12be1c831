# typst_ts_cli

The typst.ts command line, as a verified library.

- `src/args.rs`: the arguments of the CLI commands, and what is derived from
  them once: the workspace root, the main file, the output directory, and how
  diagnostics are reported.
- `src/paths.rs`: POSIX paths as `std::path` reads them (components, join,
  strip a prefix, parent), with the laws that tie them together.
- `src/input.rs`, `src/text.rs`: `key=value` inputs, and trimming by Unicode
  whitespace.
- `src/vpath.rs`: the call into `typst-syntax` that makes a virtual path.
- `src/task.rs`: the decisions of the future folder, which keeps only the
  newest pending future and a single worker.
- `src/renderer.rs`: the fonts handed to the renderer's builder.
- `app/`: clap's view of the arguments, the current directory, process exit,
  and the tokio/rayon runtime around the folder.
