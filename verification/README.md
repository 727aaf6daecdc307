# agentcord

A Discord client for ACP agents. Each agent session is a post of one forum
channel: prompts are typed into the post, and what the agent writes, thinks, runs
and asks is shown there. For agents that run inside herdr, a terminal multiplexer,
the library holds the decisions of mirroring them to forums too; the program talks
to herdr for its commands and does not run that mirror.

`src/` is the library: the decisions that the bot takes, as verified Rust. It
touches no file and no network. Where a task alternates between outside work and decisions, the
library holds the state and answers each event with the next action.

| module | what it decides |
| --- | --- |
| `acp` | model selectors, session options, prompts with their time limits, the registry of session actors, restoring a session |
| `discord` | reducing session updates, rendering and splitting them into messages, synchronizing messages, permissions, forum tags, posts and threads, mirrored prompts |
| `commands` | slash commands: their choices, arguments and replies |
| `config`, `settings`, `paths` | configuration values, the settings file, references to the environment, home-relative paths |
| `db` | what is stored, how it is read back, and the migration of old keys |
| `elicitation`, `modal` | forms that an agent asks to be filled in |
| `forum` | herdr sessions and their posts: transcripts, tags, titles, resuming, launching, pruning |
| `herdr` | requests to herdr, its answers and its events |
| `control` | the one-shot control command |
| `text`, `numbers`, `seqs`, `maps`, `json`, `ids`, `session`, `error` | what the others are built from |

Public proof functions state what holds of the library as a whole, such as that a
stored session reads back, that a finished synchronization shows exactly the
rendered messages, or that a prompt always ends.

`app/` is the program around it: the gateway client, the ACP connections, the
database, the herdr socket and the configuration file.

Functions whose headers stand under `#[verifier::external_body]` call other
crates. Their contracts are not proved; each says in its doc comment what it claims.
