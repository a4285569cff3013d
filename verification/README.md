# pkgcatalog

The decisions behind a searchable catalogue of software packages, verified with Verus.

- `src/text.rs`: text as sequences of characters.
- `src/json.rs`: filters as JSON, written by `serde_json`.
- `src/models.rs`: the values that requests carry and answers hold.
- `src/manager/`: the queries that the database is asked, and what is made of the replies:
  full-text queries (`fts.rs`), plans for filtered listings (`plan.rs`), queries with their
  parameters (`statement.rs`).
- `src/handlers/api.rs`: the answers of the API, and the pages of packages with the cursors
  that link them.
- `src/http.rs`: the routes, and the static files.
- `app/`: the web service around the library, on `axum` and `sqlx`. A program brings its
  tables, query texts and pages as an implementation of `Catalog`.

Proof functions whose names start with `law_` state what holds of the library as a whole.
