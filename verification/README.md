# stackpedia

The verified core of Stackpedia, a service where developers share the
technology stacks of their projects, vote on them and compare tools.

- `src/` is the library, verified with Verus: validation of submitted stacks,
  session tokens (HMAC-signed, time-limited) and the session cookie,
  recovery codes and their Argon2 hashes, the stack listing query (paging,
  ordering, filters, `LIKE` escaping), vote decisions, tool statistics, the answers built from
  database rows, the demonstration data plan, and the server's settings.
- `app/` is the HTTP server around it (axum, sqlx on PostgreSQL): routing,
  database access, JSON, and the process's environment.
- `tests/` exercises the library on concrete values.
