# baml_rt

The verified core of a BAML runtime host that serves agents over the A2A
protocol.

- `src/` is the library, verified with Verus:
  - `a2a_store`: the task store (tasks in order of first arrival, update
    events per task until drained), with its abstract model
    `TaskStoreView` and the laws of reading back, cancelling, draining,
    paging, and of any sequence of calls (ids never go, events wait until
    drained).
  - `a2a_transport`: what a result of the JavaScript A2A handler does to the
    store, the answers to `tasks.get`, `tasks.cancel`, `tasks.subscribe`,
    and the mapping of errors to JSON-RPC errors and metric labels.
  - `a2a_handler`: the decisions of the A2A request handler: routing by
    method, reading and storing a stream, and planning the JSON-RPC replies.
  - `a2a_types`: the A2A task, message and artifact records and their views.
  - `context`, `ids`, `scope`: runtime scopes, the counter from which
    context ids are drawn, and scope summaries.
  - `tool_fsm`: tool session ids, tool failures and session errors.
  - `quickjs_bridge`: the JavaScript wrappers that expose BAML functions, and
    the checks on the native helpers' arguments and the parse they hand on,
    how their failures read to a script, how a stream's results are
    assembled, and how a script's result is read.
  - `runtime`: runtime configuration and its builder.
  - `decimal`: decimal text of integers (page tokens, context ids).
  - `baml_src`: the BAML source of the greeting function (the same text
    stands as a BAML file in `extras/baml_src/simple_prompt.baml`).
- `app/` is the host around it: task-local scopes, JSON forms of the records
  (serde), the task endpoints behind a lock with a broadcast of updates, the
  A2A request handler over an agent's scripts, and the asynchronous tool
  session interface.
- `tests/` exercises the library.
