# meshrmm_agent

The logic of a Windows endpoint agent for remote support, written in Rust and
verified with Verus: what crosses the pipes between the agent and its desktop
helpers, which helper runs where, what a remote session sends and when, how the
agent updates itself, and what its service does.

Nothing in `src/` touches Windows, the network or a file. Every function there
takes what was found and says what is to be done; the program around it looks,
does, and reports back.

- `src/` is the library. Each public function states in its contract what it
  returns or changes. Public proof functions state what holds across functions:
  that what is written to a pipe is read back, that a running session survives a
  reconnect, that a failed installation keeps the previous executable.
- `tests/` runs the library on concrete values.
- `app/` is the program's portable edge: its command line, its configuration
  file, its logs, its pipe to the service, and its update directory.

A few functions of the standard library and of `zeroize` are used through small
trusted declarations; each names the function and says what is taken for granted.
