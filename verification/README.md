# fluss_sink

A sink that stores the messages of a stream in Apache Fluss tables.

`src/` is the library. It decides what happens to messages; it is verified with Verus.

- `config`, `connector`, `message`, `table_path`, `text`: configurations, errors, messages, paths.
- `json`, `arrow_data`, `fluss_schema`: what simd-json, Arrow and the Fluss client do for the library.
- `schema`, `batch_builder`: the columns of the single table, and the rows that messages become.
- `decoding`, `decimal`: which values the columns of a table can take, and what becomes of others.
- `schema_catalog`: the tables whose schemas are known, and how schemas become known.
- `router`: to one table, or to the table that each message names.
- `writer`, `sink`: which call to the cluster comes next, and what its outcome means.

The functions and types marked `external_body`, the `assume_specification` items and the names
declared `uninterp` are the trusted part: their contracts are taken for granted, and a name stands for
what an outside function gives. They stand in `json`, `arrow_data` and `fluss_schema`, and a few in
`text`, `table_path` and `schema_catalog`.

The routers, the writer and the sink make no calls to the cluster themselves. They hand out the next
step, and are told what came of it. `app/` runs them against a cluster.
