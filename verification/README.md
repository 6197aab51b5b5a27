# hive

Keeps a set of NationStates dispatches in step with a folder of templates.

- `src/` is the verified library (Verus): text encoding and decimal numbers
  (`text`), the API's request parameters, reply handling, retry rule and retry
  state, and the request parameters of both steps of the dispatch command
  (`api`), the key-value stores behind the cache and
  the credentials (`keyed`, `cache`, `credentials`), the `table` and
  `nation_table` template filters (`filters`), file-name rules, categories and
  the template index (`loaders`), and the per-template decisions of a
  synchronisation run (`sync`).
- `app/` is the command-line program: argument parsing, files, HTTP requests,
  template rendering, sleeping between requests.
- `tests/` runs the library on concrete inputs.
