# napcat_chat

A group-chat bot for NapCat that answers through an OpenAI compatible
backend, with a verified core.

- `src/` is the library, verified with Verus: configuration and its
  defaults, text handling, the NapCat payloads and event-stream framing, the
  chat client's choice of models and transports with its retry, fallback and
  cooldown rules, and the rules that decide whether a tool request of the
  model may run. Public proof functions (`*_law`) state what holds across
  calls.
- `app/` is the I/O around it: the JSON configuration file, HTTP requests and
  the event stream, running processes and files for the tools, logging.
- `tests/` runs the library on concrete values.
