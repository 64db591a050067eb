# cofounder_api

The backend of a cofounder-matching service. Founders sign in with a magic
link, fill in a profile and an eighteen-item working-style questionnaire, and
are shown a deck of other founders ranked by how well they would fit; they can
swipe, match, message, block and report.

## Layout

- `src/` is the verified library, checked by Verus: questionnaire scoring,
  profile validation and normalisation, the components of match scoring, deck
  ranking, the messaging rules (as a small state machine the service drives),
  swipes, moderation checks, login tokens and cookies, configuration, and the
  error vocabulary with its problem documents. Calls into `sha2`, `base64`,
  `rand` and `chrono-tz` sit behind small trusted wrappers whose contracts say
  what the library relies on.
- `app/` is the HTTP service around it (axum and sqlx): routes, SQL, the
  session extractor, the event bus, and the floating-point arithmetic that
  turns component fits into points.
- `tests/` exercises the library on concrete values, including one test for
  each of the properties the library proves.
