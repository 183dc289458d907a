# hoas

A read-only query service over a document store. A configuration file
declares routes; each route names a collection, the query parameters that
filter it (with an operator and a value kind) and whether it is paged.

- `src/` is the verified library: configuration values and keyword parsing
  (`conf`), the route table (`route`), query-string reading and paging
  (`query`), filter construction (`filter`), the whole plan of a request
  (`request`), the answer protocol (`respond`), middleware refusals
  (`middleware`), the command-line values (`args`) and text helpers (`text`).
- `app/` is the server around it: command line, configuration file, the web
  framework, the document store, logging.
- `tests/` runs the library on concrete inputs.
