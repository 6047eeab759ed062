# condesate

A small runtime for many agents, with a verified core. Agents run inside
harnesses, talk over a bus, and share storage and caches. Everything they reach,
they reach through a kernel that checks the crossing against the grants of the
principal that makes it, and records the answer.

- `src/` is the library. Its functions carry contracts that Verus proves. What
  is called from other crates stands behind small wrappers whose contracts are
  stated, not proved, each with a note that names the function it calls.
- `tests/` runs the library on concrete values.
- `app/` is the program around it: the command line, the clock, files, sockets,
  child processes and tasks.

## The library

| Module | Holds |
|---|---|
| `types`, `text`, `scan`, `sorted`, `assoc`, `views`, `json` | plain data, text and JSON, and the lemmas about them |
| `security` | principals, rules, the policy engine, the audit trail, and the kernel |
| `swarm` | the bus, shared storage, harnesses, guarded services, and spawning |
| `agent` | the agent loop, tools, prompted tool calls, wire formats, and the REPL |
| `cache` | what a cached value is, which pools may be read, and guarded reads |
| `faraday` | the diary, the idea book, and retrieval sheets |
| `evals` | cases, metrics, reports, and the eval target server |
| `demo`, `chat`, `leader` | the parts of three programs that decide anything |

Contracts speak of mathematical views: `x@` of a type is the value that its
fields stand for. A property that spans several calls is a public proof function
whose name begins with `law_`. `security/laws.rs` and `security/kernel_laws.rs`
hold those on the permission boundary: denials win, delegation never widens,
tenants stay apart, every check leaves a record, and a refused write changes
nothing. The others stand beside the functions they speak of.

## The program

```text
condesate demo             a two-harness swarm, offline
condesate chat             a terminal chat
condesate leader           a leader that can spawn a search agent
condesate evals            the eval suite: table, JSON, CSV and dashboard
condesate eval-target      serve the eval target over HTTP
condesate a2a card|send    talk to an agent on another site
```

`PROVIDER`, `MODEL` and the provider's API key choose a live model; without them
the programs that can run offline do.
