# solution_agent

Sessions of AI agents inside a solution, a workspace of several projects: what a
session is and how it is remembered, how its conversation is shown, searched and
archived, which tools clients can call on it and what they are told when it
changes.

`src/` is a library that Verus verifies. Every function has a contract over
mathematical values; laws that hold across functions are the public proof
functions whose names begin with `law_`.

| Where | What |
| --- | --- |
| `model`, `thread`, `solution`, `clock`, `path` | the data |
| `text`, `json`, `pattern`, `images`, `duplicate`, `ordering` | building blocks and the calls into outside crates |
| `conversation_render`, `conversation_view`, `tool_output`, `search`, `permissions` | how a conversation is shown |
| `background_agent`, `background_shell` | what runs beside a session |
| `cold_persistence`, `db`, `background_rows` | what is kept |
| `compact`, `message_generator`, `metrics_emitter`, `event_sources` | what happens to a session |
| `adapter`, `claude_adapter`, `agent_settings` | the agents and their settings |
| `mcp` | the tools that clients call |

`app/` is ordinary Rust around it: the forms in which requests and answers
travel, the files and the database that are read and written, and the order in
which outside work is done.
