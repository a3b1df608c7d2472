# markus

The verified core of Markus, a local LLM manager and inference engine that
runs GGUF models with candle.

`src/` is the library, checked by Verus: every function carries a contract
over mathematical models (`Seq`, `Map`, spec functions), and the properties
that span functions are stated and proved as `law_*` proof functions.

| module        | what it holds |
|---------------|---------------|
| `gguf`        | the GGUF header format as a spec over bytes, its parser, the memory estimate; a prefix of a file decides its header |
| `meta`        | typed lookups in the header's key/value pairs |
| `tokenizer`   | greedy longest-match encoding with byte fallback, marker-aware decoding; decoding undoes encoding on plain vocabularies |
| `pipeline`    | ChatML prompts, the decisions and events of a generation run (tokens, then one final event), collecting streamed events |
| `model`, `models` | file formats, model metadata, which runner serves an architecture |
| `scanner`     | which walked files are models, without second copies, GGUF first and each group largest first; scan roots and cache age |
| `download`    | aliases, `hf:` shorthand and direct URLs |
| `system`      | hardware description, `nvidia-smi` output, inference process names |
| `app`, `chat`, `transcript`, `menu`, `widgets`, `events` | the TUI state machine, the chat editor (the cursor stays on a character boundary; backspace undoes typing), the text of the screens |
| `commands`    | command-line decisions: model selection, the interactive chat session and the conversation it builds, confirmations |
| `server`      | completion ids and plain-prompt requests |
| `panels`      | the rows of the model detail panel and of the system dashboard |
| `units`       | sizes in MB and GB, with the exact text `{:.1}` gives for the `f64` value |
| `text`        | characters, decimal numbers, trimming and lines as `str` defines them |

`app/` is the program around the library: argument parsing, the terminal
UI, the HTTP server, file and network I/O, candle inference, and the
floating-point sampling settings and figures (temperature, tokens per
second, parameter counts in billions). `tests/` runs the library against concrete values.
