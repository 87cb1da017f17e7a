# il2cpp_runtime

A binding to the IL2CPP runtime of Unity games, with its logic verified by Verus.

- `src/` is the verified library: the runtime's handle types, the type table
  and its lookup rules (`type_table`), method resolution by signature and
  signature formatting (`method`, `types`), the decisions of the field search
  (`field`), the UTF-16 buffers handed to the runtime (`wide`, through the
  `widestring` crate) and the decisions of the attribute code generators
  (`codegen`).
- `app/` holds what touches the game process: the IL2CPP API table, reads of
  runtime memory, initialisation, managed method invocation, and the code
  generators written over `proc_macro2` with `syn`, `quote` and `darling`.
- `tests/` runs the library on concrete values.
