# ai

The logic of a service that lets a language model build and edit a knowledge
graph: it generates graph schemas and graph data from documents, and runs a
tool-using chat agent over a graph.

`src/` is the library, verified with Verus:

- `agent` — the agent's turn as a state machine (`AgentLoop::start`, `step`):
  model calls, tool calls, the iteration limit, multi-part messages.
- `tool_executor`, `tools` — which tools a role is offered, how a tool call's
  arguments are read and checked, and what each tool answers.
- `creation` — entity resolution and the node and edge batches, as machines
  that decide while the caller embeds, searches and creates.
- `ids` — fresh node ids, each greater than the one before.
- `messages`, `chunking`, `prompt` — conversation history trimming, splitting
  long user messages, and the prompts built from them.
- `schema_service`, `data_service` — resolving an OpenAPI document into a
  structured-output schema, and turning the model's answer into graph data.
- `stream`, `chat`, `retry`, `generation`, `errors` — server-sent event framing,
  streamed answers, retry decisions, generation attempts and error mapping.
- `json`, `text`, `order`, `graph` — the data models these rest on.

`app/` holds the program around it: the command line, HTTP calls to the model
provider, and conversion between wire values and the library's types.
