# reeve-runtime

The rules of an agent runtime, written in Verus: what an agent does with a
message, a reply or a tool's answer; how its history is rebuilt from its
journal; where it keeps its files and which of them it refuses to follow; who
may send to whom; what the estate's operator can order; and how the background
process starts, resumes its agents and stops.

## Layout

- `src/` is the library. Every function in it is verified against its contract.
  Nothing in it touches a file, a clock, a process or the network: a function
  that needs one says what is to be done next, and is asked again once it is
  done. What holds of such a sequence as a whole is stated in the `law_*` proof
  functions beside the rules.
- `tests/` runs the library against disks, models and registries in memory.
- `app/` is the ordinary Rust around the library: it performs the steps on the
  real filesystem, speaks the file and message formats, and hosts the actors.

## Modules

| Module | What it holds |
| --- | --- |
| `agent`, `agent_model` | an agent's message loop, as code and as a state machine |
| `conversation`, `history`, `journal` | journal entries, the history they amount to, and appending to them |
| `recall` | that the journal stands for what the agent said and heard |
| `seen_ids` | the bounded set of message ids already taken |
| `agent_fs`, `paths`, `fs_util`, `atomic_file` | the data directory, paths, directory checks and atomic writes |
| `agent_registry`, `keypair`, `identity` | registered agents, their keys and identities |
| `migration` | moving an older layout up to the data root |
| `config`, `capability`, `blacklist` | personas, teams, capability profiles and refused actions |
| `audit` | the audit log and its events |
| `delivery`, `dispatcher` | depositing an envelope, and sending a message |
| `engagement`, `team`, `estate` | engagements, teams, and the coordinator that changes them |
| `daemon`, `startup`, `resume` | the background process, its start, and its agents' return |
| `text`, `io_error` | numerals, cuts and quotes; failures of the operating system |

## What is trusted

Seven small functions call code that is not verified here, and say in their
doc comments what is taken on trust: SHA-256 (`sha2`), Ed25519 public keys
(`ed25519-dalek`), TOML strings (`toml`), and from the standard library
`String::from_utf8`, `Path::parent`, `Path::strip_prefix` and the `Debug` of
strings.
