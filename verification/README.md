# shopwire

The verified core of an agent-first shoe catalog API (search with a cache
and a database, a built-in fallback catalog, and product ingestion).

- `src/` is the library, verified with Verus: text helpers (`text`), the
  request and response values (`models`), cache keys (`cache`), the built-in
  catalog and the selection of offers (`catalog`), database query plans and
  the ingestion run (`repository`), and the decision steps of the endpoints
  (`handlers`).
- `app/` is the HTTP service around it: routing, JSON, the Redis cache, the
  Postgres database and configuration from the environment. It performs the
  actions that the library's steps ask for and reports the outcomes back.
- `tests/` runs the library on concrete values.

Money is held in hundredths of the currency unit inside the library; the
service converts to and from decimal numbers at its edge.
