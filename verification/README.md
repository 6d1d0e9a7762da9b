# vlog

A microblog with a Markdown blog beside it. The library (`src/`) holds what the site
decides and computes, each function with a Verus contract:

- `text` — trimming, parsing and printing numbers, ASCII case, string comparison.
- `services::status_service` — composing a status, linking `@user` and `#tag` in its
  HTML (outside `<a>`, `<code>` and `<pre>`), and assembling what a page shows of each
  status from what the database returned.
- `services::rate_limit`, `services::auth_service` — the login limiter (5 failures within
  60 s lock a username for 60 s) and the steps of a login.
- `services::admin_guard` — the CSRF check of every write.
- `services::admin_post_service`, `services::upload_service` — post summaries and
  excerpts; image uploads (types, size cap, file names).
- `handlers` — the decisions of each page and form: validation, messages, paging,
  redirects, and the multipart forms as state machines.
- `config`, `domain`, `templates`, `repositories`, `utils` — settings, records, page data,
  SQL fragments, the session cookie, slugs, Markdown rendering (`pulldown-cmark`),
  Argon2 password hashes (`argon2`), random tokens (`rand`) and the dates of the RSS feed
  (RFC 2822, `chrono`) and the sitemap.

Laws that span several calls are public proof functions named `law_*`.

`app/` is the program around the library: the HTTP server (Volo-HTTP), SQLite access
(SQLx), Askama pages and the clock. `tests/` runs the
library on concrete values.
