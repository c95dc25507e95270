# tinybrowser

The script side of a small headless browser, verified with Verus: what a page's
script may ask of its host, and what the host answers.

`src/` is the library. Its functions state what they return and are proved to do
so, but for the small ones that call into other crates (see the end).

- `dom` — the commands that script gives to the document: reading and editing
  nodes, document order, token lists, which scripts count as started, and what
  an edit changes on screen.
- `fetch` — a request from its start to its reply: blocked patterns, forbidden
  targets, interception, preflight, redirects, cross-origin access, and the
  bodies that are kept for inspection.
- `urls`, `cookie` — URL components, setters and resolution, the effective
  domain of a document, and cookies.
- `crypto`, `text_codec` — the secret-key primitives of `crypto.subtle`, and
  `TextEncoder` and `TextDecoder`.
- `host`, `quiet`, `watchdog` — timers and posted tasks, when a page counts as
  settled, and how long script may run.
- `remote`, `script`, `module` — objects held by the automation side, the
  scripts that are run for it, and module scripts.
- `state`, `runtime` — what one page keeps.
- `text`, `number`, `json` — the texts that all of this is written in.

Requests, commands and evaluations that wait for something outside are written
as steps: a function takes what came back and says what to do next. `app/` runs
those steps against the script engine, the network, the clock and the document
engine.

Public proof functions beside the code state what holds of several functions
together, such as that a redirect to a refused target is never followed or that
a script is started once.

What the library believes without proof are the calls into other crates. Each
stands in a small function of its own whose comment says what is claimed of it.
