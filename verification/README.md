# fortify

Protection for an onion service: a front proxy that rate-limits circuits and
sends unverified visitors through a CAPTCHA gateway, backend nodes that watch
sessions for abuse, and an orchestrator that keeps a set of mirror onion
addresses alive, rotates them, retires them and brings them back.

## Layout

- `src/` — the library, verified with Verus. The decisions live here, each with a
  contract: admission and rate limiting (`gateway`, `ratelimit`), routing
  (`routing`, `backend`), session and panel bookkeeping (`admin`, `forms`,
  `behavior`, `activity`), node checks (`node`, `detection`), mirror lifecycle
  (`mirror`, `registry`, `scaling`), Tor commands and replies (`tor`),
  daemon planning (`daemons`), the CAPTCHA pool and its images
  (`captcha_pool`, `captcha_image`, `glyphs`), the panel pages' markup
  (`pages`), and text helpers (`text`, `strmap`, `format`). The `law_*`
  proof functions state properties that span several operations.
- `tests/` — tests of the library on concrete values.
- `app/` — the programs: `fortify http`, `fortify node` and
  `fortify orchestrator`. They do the I/O (sockets, files, processes, the
  Tor control port), keep the floating-point measurements, and call the
  library for the decisions.

## Maps keyed by text

Where the sessions, nodes, logins and rate-limit records are kept by a text
key, the library uses its own `StrMap` (`src/strmap.rs`): a vector of
(key, value) entries whose invariant is that no key occurs twice. Its view is
a `Map` from the keys' characters to the values, and every operation is
proved against that view. A std `HashMap` keyed by `String` gives Verus no
specification to prove lookups and updates against, so the contracts of the
panel and the limiter could not be stated over it.
