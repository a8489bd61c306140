# duke_portal

The Senior Duke portal: organisations enrol pupils on the Silver and Gold
awards, teachers review the pupils' sections, and the portal's staff manage
organisations, accounts and statistics.

The library under `src/` is written in Verus and verified. Each public
function states in its contract what it returns; a function that writes to
the stores states what it leaves in them when none of its store operations
fails (each store counts the errors it reported, and the contracts speak of
that count), and what still holds when one does. The operations on accounts,
sessions, links and sections return a database error only when the store
reported one or stored bytes cannot be read, and the sweeps that remove or
clear stored data report an incomplete run only when the store reported an
error. The laws of
the portal (an account logs in with the password it was created or reset
with, a session belongs to its login until it expires, a pupil who joins and
leaves an organisation leaves it as it was, who may see and delete whom,
...) are proof functions.

- `keys`, `util`, `time`, `dir`: identifiers, text checks, the clock, paths
  and constants.
- `codec`, `store`, `db`: how records are written as bytes and kept in `sled`
  stores, and what a read gives back.
- `user`, `org`, `section`, `section_store`: users and their permissions,
  organisations, the awards' sections and pupils' sections.
- `auth`, `link`, `login`: sessions, emailed links and logins.
- `data`: the portal's stores together, and the operations on them.
- `roster`, `accounts`, `page`, `forms`, `upload`, `stats`, `notifications`,
  `purge`: what the pages list and decide, the forms, uploads, statistics,
  reminders to teachers and bulk deletion.

`app/` is the web server around the library (actix-web and handlebars): it
reads requests, renders pages and sends the library's decisions on. `tests/`
exercises the library on concrete values.
