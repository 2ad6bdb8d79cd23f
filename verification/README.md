# lightcode

A terminal coding agent, written as a verified Verus library with a thin
command-line front end.

- `src/` is the library, every function verified by Verus: the permission
  policy and globs, the agent's turn state machine and permission decisions,
  streaming decoders and provider wire formats, the patch, edit, search and
  diff tools, the goal loop's decisions, sessions, @-mentions, web text
  handling, and the terminal UI's state (a grapheme-based editor with undo,
  key handling, the timeline and its styled lines).
- `tests/` runs the library on concrete inputs.
- `app/` is the program: argument parsing, configuration and session files,
  HTTP calls to the model providers, running tools and commands, and a
  line-based interactive loop. It makes the library's decisions happen and
  decides nothing itself.
