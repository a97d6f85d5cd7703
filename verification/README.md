# llm_top

A monitor for local LLM agents and inference servers. It lists the live sessions of
OpenCode, Ollama, llama.cpp, vLLM, Odysseus workspaces and other servers with an
OpenAI-compatible interface.

    llm-top             show the sessions in the terminal
    llm-top --json      print one snapshot and exit
    llm-top --jump PID  bring the terminal of a process to the front

## Layout

- `src/` is the library, written in Verus. Whatever decides or computes is here, with
  a contract: how rows and responses are read, which process belongs to which session,
  what a session shows, how a terminal is found, and what the panels hold.
  - `text`, `json`: characters, numbers, JSON documents.
  - `model`, `app`: the sessions and the state of the monitor.
  - `collector`: one module per kind of session, the process table, cleaning of texts.
  - `jump`: the terminal backends and the walk through them.
  - `snapshot`: the view for headless consumers.
  - `ui`: the contents and the places of panels and overlays.
- `app/` runs the library: processes, files, sockets, the terminal, and whatever is
  computed in floating point.
- `tests/` runs the library on examples.

Contracts speak of views: strings are sequences of characters, lists are sequences,
and each record has a model of the same shape. Public proof functions named `law_..`
state what holds across functions.

## JSON snapshot

The JSON snapshot includes, for each session, its working directory, its `summary` and
a tail of its `chat_messages` and tool calls. Terminal control characters are taken out
of texts from OpenCode's database, and known kinds of secrets are blanked out of titles
and chat lines. Anything else in them is shown as it is, so treat a snapshot as private.

## Settings

The quota panel has two columns. `LLM_TOP_SETUP_SOURCE` names the program of the first
one, whose data are had by a setup; the second one is Codex.
