# static_templater

The analysis behind a compile-time template engine: a module holding a
template (`const SOURCE: &'static str = "Text {{ value }} text";`, or a
`SOURCE_FILE` to read it from) and type aliases for its variables is expanded
into a `Context` struct with a field per variable and a `render(&self)` method that
builds the text.

- `src/` is the verified library: reading a module's options, collecting the
  variables a template reads, planning the generated struct and function,
  generating Rust source for plain-variable templates, camel case of names.
- `app/` holds the I/O around it: reading `SOURCE_FILE` and running an
  expansion from module items to the items to generate.
- `tests/` runs the library on concrete templates.
