# rawk

Project templates for machine-learning projects: a library that decides
where templates live, how a template name is resolved, how a template
directory is loaded and checked, what a search or a category listing shows
and in which order, and which variables a new project is rendered with; and
a command-line program around it.

- `src/` — the library, verified with Verus.
  - `template.rs` — template data, loading from a directory, resolving names,
    listing, searching, layout checks.
  - `listing.rs` — grouping and ordering of the template list.
  - `project.rs` — slug, description and variables of a new project.
  - `render.rs` — the variable context and rendering with minijinja.
  - `text.rs`, `paths.rs` — string and path operations the above rest on.
- `app/` — the `rawk` program: argument parsing, reading the disk,
  parsing `rawk.toml`, and printing.
- `tests/` — tests of the library.
