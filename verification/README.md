# topic

An anonymous forum: boards of bump-ordered threads, threads of posts written
in Markdown, reply links, bans and moderator sessions.

- `src/` is the verified library (Verus): number notation and parsing, the
  configuration and its defaults, the database URL, the paging of boards and
  threads, the redirect paths, the choice of static files, SHA-256 hashing of
  addresses and passwords, Markdown rendering of posts and the linking of
  `@<number>` reply references, and the session store.
- `app/` is the application server around it: Iron routing, PostgreSQL
  queries, templates, the configuration file and the clock.
- `tests/` runs the library on concrete values.
