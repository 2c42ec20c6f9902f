# xtools

A small toolbox around data files and scripts, written in Verus.

- `token`, `parse`: spans, tokens and parser combinators (`Token`, `List`,
  `Either`, `Any`) over sources that can be cut into pieces.
- `xr`: the beginnings of a Ruby front end built on those combinators;
  `xr_dyn`: grammar tables as data.
- `xc`: format conversion between RON, JSON, YAML and TOML (through
  `serde_transcode`), the direct byte and line outputs, and SSH configurations
  and Vagrant machine listings read into tables and written as CBOR.
- `script`: a scripting engine: command-line options, values and their JSON
  text, the reading of command output, and the interpreter itself, a state
  machine that asks its runner for every process, file and directory.

`app/` holds the programs around the library (`xs`, `xc`, `xr`): reading and
writing files, running processes, and the serde derives of the script syntax and of grammar tables.

`xc` has no Terraform mode: reading Terraform sources needs `syn` and an
outside Terraform model crate, behind a feature that is off by default, and
this project depends on neither; `t` is refused as an unknown input format.
