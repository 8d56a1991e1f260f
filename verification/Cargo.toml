[package]
name = "pyre_types"
version = "0.1.0"
edition = "2021"
publish = false

[dependencies]
dupe = "*"
itertools = "*"
parse-display = "*"
ruff_python_ast = "=0.0.2"
starlark_map = "*"
