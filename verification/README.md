# granite

A command-line agent (a ReAct loop) that drives language-model providers
(Groq, with Gemini, Ollama and Mistral known by name) and can read, write and
list files and run shell commands.

## Layout

- `src/` is the library, verified with Verus: the conversation model and the
  agent's state machine (`agent`), the provider wire formats (`groq`,
  `gemini`, `ollama`) and stream framing (`stream`), the shell-command policy
  (`bash`), the slash commands (`commands`), the chat screen's key handling
  (`chat`) and layout arithmetic (`screen`, `boxes`), configuration and key
  resolution (`config`), HTTP endpoints and error mapping (`http`), and the
  texts tools report (`outputs`).
- `app/` is the program around it: command-line parsing, the configuration
  file, HTTP clients, the terminal, and the tools' file and process I/O.
- `tests/` exercises the library on concrete values.
