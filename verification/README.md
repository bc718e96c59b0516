# missions

A mission is one task that several agent threads, its workers, share. This library holds what
can be decided about missions without a window, a thread or a file at hand, each function with
a contract that Verus proves:

- `shared_context`: the decisions, artifacts and evidence that workers record, and what a
  reading of one mission's context returns;
- `mcp_server`: the JSON-RPC messages of the server that agents record and read through;
- `mission_context_observer`: what watching a thread adds to the shared context;
- `mission_orchestrator`: the dialog that creates missions, the registration of the server in
  the settings, and the state that a mission's threads add up to;
- `mission_tree`, `mission_changes`, `mission_snapshot`: missions with their threads, the files
  that workers changed, and everything that a surface draws of a mission;
- `mission_panel`, `mission_views`, `worker_dashboard`: the state of the sidebar, of the pages
  and of a worker's page, and what each of them shows;
- `mission_id`, `time`, `thread`, `token_count`, `text`, `ui`, `lists`: what these are made of.

Calls into `uuid`, `chrono`, `serde_json` and a few functions of the standard library stand
behind small functions whose contracts are taken on trust; each says what it claims.

`app/` is the server itself: it reads lines from stdin, writes answers to stdout and keeps the
rows in a SQLite file.
