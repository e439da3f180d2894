# orae

An opinionated project generator for Rust API crates, with the planning
behind its HTTP-server macros, written in Verus.

```
orae create --type=rest-api my-project
```

## Layout

- `src/` is the verified library. It decides; its callers act:
  - `dependency`, `project`: the dependency model, and what each project
    type and template offers.
  - `flow`: the order of `orae create` (template, optional dependencies,
    confirmation, then creating the project, writing its dependencies and
    scaffolding), as a step from state and event to next state and action.
  - `manifest`: writing a dependency into `Cargo.toml` with `toml_edit`
    (a bare version, or an inline table; an empty table when no version is
    pinned), stated over a model of what the document holds.
  - `template`, `templates`: the `Template` trait, the registry and the
    REST CRUD template.
  - `scaffold`: paths, modules, scaffolding steps and inserting text after
    a marker line.
  - `route`, `route_order`: the plans that the route, controller and main
    macros expand from.
  - `laws`: properties proved across these operations.
- `app/` is the program around it: the command line, prompts, running
  `cargo`, the file system, the HTTP server runtime, the configuration
  server and the macro front ends built on `syn` and `quote`.
- `tests/` runs the library on concrete values.
