# moh

A local-first coding agent: a terminal client, a per-user backend that owns the model runs and the
sessions, and the protocol between them. This crate holds the logic of both sides, verified with
Verus; the program around it does the input and output.

## Layout

- `src/` is the library. Its functions state what they give for the inputs that they take, and
  Verus proves it; what is left to a solver, to chance or to the machine is said where it is.
  - `session`, `snapshot`, `text`, `instant`, `json`: the values of the domain and their text.
  - `harness`: one run at a time, and the history that successful runs leave.
  - `rpc`: wire values and their conversion in both directions, the calls of a client and the
    answers of a server, and following a session without gaps.
  - `client`: the prompt, commands, the chat that is shown, the session browser and the whole
    screen as a list of elements.
  - `backend`: activity, serving until idle, and shutting down in order.
  - `local`: paths, configuration, and connecting to a backend or starting one.
  - `providers::codex`: credentials and their rotation, the model catalog, completed responses.
  - `cli`: the modes of the program and its list of sessions.
- `tests/` runs the library, among other things by painting whole screens with ratatui.
- `app/` is the program: arguments, files, sockets, processes, HTTP and the terminal. As it stands
  it has no transport: the bindings of the wire schema are not part of it, so every mode ends, once
  its arguments are read, with the error of an unsupported platform. `transport` names what a
  transport has to provide.

## How input and output are kept apart

What alternates with input and output is a state machine: the caller performs the action that the
machine names and hands back what happened. Serving (`BackendServe`), preparing the state directory
(`StateDirSetup`), refreshing credentials (`CredentialRefresh`), fetching the model catalog
(`CatalogFetch`), following a session (`SessionFollower`) and the terminal modes
(`TerminalSession`) are such machines.

How an area of the screen is divided is for the layout solver to choose where several divisions
are equally good, as in a session browser or a compact help without room for all their parts. So
the division comes first (`divide_screen`), and what is shown is stated for every division
(`render_parts`).

Calls into other crates that only compute stand behind small wrappers whose contracts are trusted:
text segmentation and width, Markdown parsing, JSON, time stamps, the layout solver and word
wrapping. Each says above itself what it claims.

Properties of several functions together are public proof functions named `lemma_...`: that reading
a message gives back what was written, that no text of a session can control the terminal, that an
idle backend stops only after a flush with nothing changed since, and others.
