# dmarcontrol

A self-hosted viewer for DMARC aggregate reports: it imports XML reports
(plain, gzip or ZIP, from files, uploads or an IMAP mailbox), stores them in
SQLite and serves a dashboard with statistics, per-domain and per-source
insights, action items and a source map.

## Layout

- `src/` is the library, verified with Verus. It holds the logic: reading
  report files and mail attachments, normalising reports and their stable
  identifiers, the statistics and rankings of the dashboard, the rules of its
  action items and protocol panels, password hashing and secret storage, the
  cookies, URLs and HTTP messages of single sign-on, the command line and the
  decisions of the mailbox scheduler. Calls into outside crates (OpenSSL,
  base64, percent-encoding, mailparse, flate2, zip, chrono) stand behind small
  trusted wrappers whose contracts name or state what those calls return.
- `app/` is the program around it: the HTTP server (axum), SQLite storage
  (rusqlite), the IMAP client, the GeoIP database reader, XML decoding
  (quick-xml) and the floating-point percentages of the JSON views.
- Collections that the dashboard groups by text (domains, source addresses,
  sender hints) are held as vectors in ascending order without repeats; the
  contracts state that order and that no element occurs twice.
- `tests/` exercises the library on concrete values.
