# tkach

The decisions of a provider-independent agent runtime, written in Rust and
verified with Verus.

The agent is stateless: callers own the message history and pass it in on every
run. A run adds messages and reports them; the caller's history followed by
what is reported as new is the whole conversation.

## Layout

`src/` is the library. Everything in it is verified.

- `agent`, `agent_laws`: the agent loop as a state machine, for buffered and
  streaming runs, and what holds of every run.
- `builder`: agents, their tool definitions, and how they are put together.
- `executor`, `concurrency`, `registry`, `policy`, `mode`: which calls may run,
  in which order, behind which permits, and what the model is told.
- `guard`, `prompt_policy`, `reports`, `steering`, `handle`, `user_input`: what
  a caller may do to a running agent, and what its consumer is told of it.
- `providers`: requests, buffered answers and event streams of the Responses
  wire format, for the public endpoint and the Codex endpoint.
- `tools/sub_agent`: nested agents.
- `message`, `provider`, `stream`, `tool`, `error`, `json`, `text`, `names`,
  `model`: the data that the rest speaks of.

`app/` is the running side: tasks, channels, HTTP, clocks and user code. It
performs what the library decides and reports back.

`tests/` exercises the library from outside, with the real serde_json and
tokio behind it.

## Reading the contracts

Every data type has a view that says what it stands for: texts are sequences of
characters, JSON objects are maps, and a run is a plain record. A contract
relates views. State machines take a reply, and their contract is a function
from the state before to the state after and the next action; the laws are
proved over that function.

serde_json reads and writes JSON text, and tokio's semaphores hold the permits.
What the library believes of them is stated where they are wrapped, in `json`,
`concurrency`, `text` and `providers/http`.
