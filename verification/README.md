# Sin90

The HTTP layer of Sin90, a personal planning module for Agent24: directions,
rhythms, tasks, reviews and routines, with AI runs that may propose changes but
never make them.

`src/` is the verified library. It decides; it does no I/O.

- `http/actor.rs` — the human and the automation key: which are acceptable,
  where they come from, whom a request comes from.
- `http/route.rs`, `http/state.rs` — the route table, who may call which route,
  and the way events leave.
- `http/ai_runs.rs` — the run registry: one run per capability in flight,
  finished runs forgotten first.
- `http/ai_classify.rs`, `http/ai_propose.rs`, `http/ai_summarize.rs` — what
  triggers a run, and what pending and rejected proposals keep it from
  proposing again.
- `http/handlers.rs`, `http/scheduler.rs` — what each request is answered and
  which events it emits, given what the store said.
- `model.rs`, `json.rs`, `ids.rs`, `text.rs`, `lists.rs` — the values these are
  stated over.

Functions named `law_..` state what holds of the library as a whole.

`app/` is the program around it: the command line, the server, the key file,
the background tasks. Persistence, the models and the kernel connection are
behind the traits in `app/backend.rs`.
