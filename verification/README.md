# bagent evidence

The evidence library of a local assistant, and the daemon around it. A request
that needs evidence is classified, planned, acquired step by step from Apple
Mail or the web, validated, and answered from what was found.

The library decides and computes. It performs no input or output: each turn is
a sequence of steps, and whoever runs it performs the step and hands back what
came of it.

## Layout

- `src/` is the library, verified with Verus.
  - `classifier`, `planner`: what a request asks for, and the budget for it.
  - `gate`, `policy`: what the user's rules are asked, and what they decide.
  - `mail_plan`, `mail_adapter`, `mail_runs`: turns about mail.
  - `web_plan`, `acquire`, `search`, `fetch`, `web_runs`, `web_counts`,
    `fetch_runs`, `acquire_runs`: turns about the web.
  - `weburl`, `address`, `document`, `page`, `jsonld`, `html`, `passages`: web
    addresses and pages.
  - `ranking`, `relevance`, `numeric`, `selection`, `conflicts`: which evidence
    counts.
  - `validator`, `web_validator`, `synthesis`, `events`, `diagnostics`: what
    becomes of it.
  - `chat`, `codex`, `attachments`, `sessions`, `previews`, `models`, `tools`,
    `mail_tools`, `tool_args`, `legacy`, `runtime_control`: the rest of a turn.
  - `text`, `spacing`, `bytes`, `order`, `json`, `identity`: what the others build
    on.
- `app/` is the daemon: HTTP, the network, the database and the connectors.
- `tests/` are the library's tests.

Calls into `url`, `scraper`, `serde_json`, `sha2`, `base64` and `chrono` stand
behind small functions whose contracts are trusted. Each says which function it
calls and what is claimed of it.
