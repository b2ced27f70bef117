# backend

The backend of a museum's exhibit and maintenance tracker: exhibits, the
replacement parts they use, notes on both, and maintenance requests that
visitors and staff submit through an online form.

## Layout

- `src/` is the library, verified with Verus:
  - `models` — the stored records;
  - `text` — trimming, splitting and decimal rendering over `Seq<char>`;
  - `jotform_api` — turning form submissions into maintenance requests, and
    the insert-or-update plan that syncs them (`sync`), with the law that a
    sync fails exactly when a new id comes twice in one batch and otherwise
    keeps every stored status, stores new requests as "Open" and stores the
    last fetched version of each request;
  - `jotform` — the earlier form intake, which kept the submitter's name as
    one string;
  - `store` — the statements that persist exhibits and parts, a model of
    what they do to the tables (the statements' text is given there too),
    and the laws that a stored exhibit or part reads back as stored (its
    links as a set, its notes in order) and that a deleted one is forgotten;
  - `api` — request payloads, their validation and the reply each database
    outcome leads to;
  - `errors` — the error replies;
  - `bug_report` — filing a bug report as a GitHub issue, as a state machine
    driven by GitHub's replies;
  - `backup` — backup names and which old backups a cleanup removes;
  - `dev` — the sample and randomly generated exhibits;
  - `db` — statement text that depends on the request.
- `app/` is the server around it: Rocket routes, the SQLite pool, the HTTP
  clients for the form service and GitHub, the background sync and backup
  tasks, and the serde copies of the library's types.
- `tests/` runs the library on concrete values.
