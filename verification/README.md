# moalog

The core of the Moalog retrospective service, verified with Verus.

`src/` is the library. Each operation of the service is split into the decisions it makes,
which live here with their contracts, and the storage and network work around them, which
the server does:

- `validate` — reference links, drafts, final answers, search keywords, dates and times.
- `invite`, `rooms` — invite codes, joining, room permissions, the member list and room order.
- `participation` — registering, saving drafts and submitting (which answers get written).
- `responses`, `social` — answer pages, comments pages and likes.
- `analysis`, `assistant` — the checks around the AI analysis and the answer assistant.
- `detail`, `storage`, `report` — the detail page, retrospective lists, the yearly archive and
  the layout of the exported report.
- `deletion` — the order in which a retrospective's or a room's rows are removed.
- `plan`, `payment` — plans, subscriptions, FluxPay requests, replies and webhooks.
- `rate_limit`, `config`, `params` — request limits and ids, the server settings, and the
  ids and paging parameters of requests.
- `time`, `text` — calendar work done by `chrono`, and text helpers.

Besides each function's contract, the library proves some properties that span calls, such
as that paging through comments or answers neither skips nor repeats an item and that a page
holds the newest answers, that a like toggled twice is back where it was and that one toggle
moves the count by one, that a generated invite code reads back from any link around it, that
the archive holds exactly the member's retrospectives grouped by year, and that deleting a
retrospective touches nothing of another one.

`app/` is the HTTP server around it (axum): settings from the environment, the request-id and
rate-limit middleware, the FluxPay and rate-limiter clients, and PDF rendering with genpdf.
