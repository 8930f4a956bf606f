# type_env

The environment in which a module of a statically typed functional language
is type checked, with its behaviour stated in contracts and proved by Verus.

- `types`: types, type variable cells and the store that holds them; the
  ranks that show that following links always ends.
- `resolution`: what a type reads as through links, and when two types are
  the same.
- `unify`: unification, stated exactly by a model and proved sound.
- `instantiate`: replacing generic variables by fresh unbound ones.
- `environment`: scopes, module-level types and values, lookups that record
  uses, and suggestions of modules for unknown names.
- `unused`: the warnings for what was defined or imported and never used.
- `name_map`, `module`, `problems`, `edit_distance`, `suggestions`: the data
  these rest on.
- `persistent`: the persistent hash maps of the `im` crate, behind
  contracts that the library trusts.
