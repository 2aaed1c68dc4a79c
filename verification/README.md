# Termux Agent Router

A small OpenAI-compatible proxy for Termux, and the chat client that goes with it. The decisions
that the programs make are a library verified with Verus; what reads files, talks HTTP and starts
processes is ordinary Rust around it.

- `src/` is the library. Each function states in its contract what it returns.
  - `config`, `validation`, `listening`, `locations`: the configuration, the models tried for a
    request, what makes a configuration valid, and where files lie.
  - `relay`, `reply`: relaying a chat request from provider to provider.
  - `tools`, `definitions`: the tools that a client may run, held to the workspace.
  - `chat`, `session`: the chat client, its tool calls and its sessions.
  - `launch`: running a client program that finds the proxy through its environment.
  - `json`, `codec`, `path`, `text`, `sorting`: JSON values, file paths and texts.
  - `relay_laws`, `tool_laws`, `chat_laws`: what holds of every relay, tool and conversation.
- `tests/` runs the library on concrete values.
- `app/` holds the program `tar`: the command line, the HTTP server, the files and the processes.
  It asks the library for the next step, performs it, and reports what came of it.

File paths are those of Unix: byte strings whose parts are separated by slashes.
