# watn

watn turns a plain-language question into one shell command, asked of an
OpenAI-compatible endpoint; in an interactive terminal the command is shown in
a review card before anything reaches stdout, and nothing runs without
confirmation.

- `src/` is the library, verified with Verus: the command-flow lexer, the
  review responses and candidates, the review panel's state machine and its
  card, the server-sent event reader, the configuration rules (providers,
  models, credentials, review switch), the model catalog and its search, the
  setup wizard's state machine and the text of its screens, the quick
  setup's answers, and the managed blocks written into shell startup files.
- `app/` is the program around it: command-line parsing, the terminal, the
  network requests, the configuration file, the startup files, and what deals
  in floating-point figures (prices, speeds, elapsed times).
- `tests/` exercise the library.
