# column_mapping

Column mapping metadata for table schemas, verified with Verus.

A column-mapped table finds its columns in the data files by a physical name and a numeric id. Both
are kept in the metadata of the schema's fields. The library in `src/` assigns that metadata,
validates it, and reads and checks the table settings and the protocol that go with it.

- `schema`, `metadata`, `rules`: the schema, its views, and the rules that the fields of a struct keep
- `walk`, `assign`: the order of the columns, and assigning physical names and ids to them
- `validate`, `error`: validation, what can be wrong and how it is reported
- `config`, `protocol`, `text`: table settings, protocol, and the numbers in them
- `laws`: what holds across several calls
- `outside`: the calls into other crates and std whose contracts are believed, not proved

`app/` offers the same functions on the types of `delta_kernel`.
