# pyre_types

The types of a Python type checker, and the operations on them, verified with Verus.

- `types` holds `Type` and what it is made of; `callable`, `class`, `tuple`, `literal`, `module`,
  `special_form`, `type_var`, `name`, `stdlib` and `uniques` hold the parts.
- `tree` says what a type means in contracts: `ty@` is a tree of nodes. Two types are equal just
  when their trees are.
- `visitor` and `rewriting` are about running something over all types in a type. Contracts of the
  rewriting operations say what each step does to a tree, applied from the leaves to the root.
- `laws` has the theorems: what substitution leaves, in which order types are visited, that hiding
  identities is independent of which were handed out, and so on.
- `display` and `printing` render things as text, with options such as a width.
- `small` is what is trusted about the maps and sets of `starlark_map`.

`app/` connects the library to `std::fmt` and to the crates that Verus does not read.
