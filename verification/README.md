# aether_gui

The supervisor of a desktop program that runs Aether, a tunnel with a local
SOCKS proxy, in a terminal: it starts Aether with a connection profile, reads
what Aether prints, answers its prompts, passes requests for a one-time code on
to the user, notices when the connection is up or lost, and tries again after a
failure.

`src/` is a library whose functions are verified with Verus:

- `text`, `error`, `events`, `state`: text, and what is reported to the user
  interface.
- `aether::decode`, `aether::ansi`, `aether::lines`: from the bytes of a
  terminal to the lines that it shows.
- `aether::prompts`, `aether::sections`, `aether::reader`,
  `aether::reader_laws`: what the output of Aether leads to.
- `aether::profiles`, `aether::command`: the command that starts Aether.
- `aether::pty`: what can be done with a session.
- `aether::status`, `aether::manager`, `aether::monitor`,
  `aether::manager_laws`: the state of the supervisor and its steps.
- `aether::history`: how requests and background work interleave, and why no
  process is lost track of.
- `aether::pump`: gathering log lines into batches.

The library decides; it does no input or output. Public functions state in
`ensures` what they return and change. Proof functions whose names begin with
`law_` state what holds over several of them. Calls into `portable_pty` and into
parts of the standard library go through a few trusted declarations, each with a
comment that says what it claims.

`app/` is the ordinary Rust around it: terminals, threads, clocks and messages.
`tests/` runs the library on concrete values.
