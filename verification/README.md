# recorder

A TV recorder back-end for the Mirakurun tuner server, whose decision logic
is verified with Verus.

- `src/` is the verified library:
  - `states.rs`: the recording state machine of a task (A, B1, B2, Rec,
    Timeout, Success, Error) and its laws;
  - `eit.rs`, `json.rs`: evaluation of the EIT present/following sections that
    `tstables --log-json-line` prints (JSONPath queries answered by
    `jsonpath_rust`), durations, and how a line of output becomes a report;
  - `rec_task.rs`: what a recording task writes, which stream it reads, how
    reports move its state, and what each poll does;
  - `rec_pool.rs`: the recording pool (a `lockfree` map) and its answers to
    control messages, and the task queue;
  - `schedule.rs`: the schedule queue, expiry and triggers;
  - `planner.rs`: recording rules kept under ULIDs;
  - `epg.rs`, `service.rs`: the EPG feed and what the search and schedule
    services answer;
  - `program.rs`, `text.rs`, `clock.rs`: programmes and ids, text helpers,
    instants in milliseconds.
- `tests/` runs the library on concrete values.
- `app/` is the program around it: options, files, the tuner server and the
  search database (through `curl`), subprocesses, and the request server.
