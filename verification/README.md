# rsi_terminal

The logic of RSI's terminal applications: a headless run, a line client and a fullscreen client.

`src/` is the library. It does no input or output of its own: the clients are state machines that
take in keys, lines and replies, and say what to ask for and what to show. Every function states
what it does, and Verus proves it. Values that belong to others (conversations, facts, files,
tickets) are plain values or numbers that their owners gave them.

| Modules | What they hold |
| --- | --- |
| `text`, `number`, `display`, `identity` | texts, numbers and identifiers |
| `journal`, `editor`, `keys`, `input` | the editor, its history, and the framing of terminal input |
| `arguments`, `session_command`, `devices`, `inspector`, `native_addons`, `plugin` | arguments and the applications they start |
| `headless`, `output`, `images`, `stdin`, `line_client`, `document`, `export`, `errors` | the applications without a screen |
| `scene`, `frames`, `recovery`, `presentation`, `surfaces` | what is drawn, when, and by whom |
| `actions`, `dispatch`, `routing`, `client`, `lanes`, `drafts`, `submission`, `answers` | the fullscreen client |
| `slash`, `slash_ui`, `setup`, `setup_ui`, `profiles`, `profiles_ui`, `external`, `external_ui`, `home` | its screens |
| `prompts`, `references`, `files`, `pages`, `history_search`, `request_details`, `job_preview`, `plugins`, `extensions`, `retention`, `clipboard` | what the client shows and keeps |

Functions named `law_…` state what holds across several operations.

`app/` is the ordinary Rust around the library: the terminal, files, processes and signals.
