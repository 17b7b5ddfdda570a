# termx

The verified core of a terminal coding assistant.

- `src/text.rs`: whitespace, words, trimming, ASCII case, lines and decimal
  numbers, each with a specification over sequences of characters.
- `src/shell.rs`: screening of shell-tool commands against a list of refused
  programs, the time limit, the step function that orders a run (screen,
  spawn, wait, read or kill), and what each kind of ending reports.
- `src/session.rs`: conversation sessions with an append-only history.
- `src/command.rs`: interpretation of a line typed at the prompt.
- `src/agent.rs`: settings of the agent loop.
- `app/`: the interactive program, process spawning, and JSON persistence.
