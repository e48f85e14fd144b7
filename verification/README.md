# nexus_engine

A workflow engine whose decision logic is verified with Verus.

A workflow is a set of nodes (subprocesses, shell commands, LLM wrappers,
HTTP calls) joined by scheduling edges (which node runs after which event)
and data flows (which node's output another node reads).

- `src/` is the verified library:
  - `model/` — the workflow definition and its validation errors;
  - `graph/` — validation, graph construction, the scheduler (edge
    matching, thresholds, `any`/`all` fan-in, retries, convergence), the data
    router, and the laws that hold of them;
  - `nodeshell/` — template rendering, command splitting, and what each
    executor sends to a node and makes of what it produced;
  - `runtime/` — the engine core: what to do when a node becomes ready or
    finishes, retries, route policies, the watchdog;
  - `dashboard/`, `cli/`, `diagnostics/` — messages, records, display
    frames and output summaries of the front ends.
- `tests/` runs the library on concrete workflows.
- `app/` is the `nexus` program: reading files, spawning processes, HTTP,
  the event loop's tasks and channels, logging, and the dashboard server.
