# tg_rs

Transfer rules, planning and part scheduling for a Telegram client with
accelerated uploads and downloads, verified with Verus.

- `src/telegram.rs`: Telegram's part-size, part-limit and download-request rules.
- `src/transfer.rs`, `src/planner.rs`: jobs, plans and the planner.
- `src/runtime.rs`: the engines that hand out parts to parallel workers.
- `src/mock.rs`, `src/simulation.rs`: in-memory sources, backends and sinks,
  and whole transfers run against them.
- `src/tdlib.rs`, `src/tdlib_requests.rs`, `src/json.rs`: TDLib configuration
  and the JSON requests sent to it.
- `src/service.rs`: the service that the client shells use.
- `src/laws.rs`: what holds across these: parts cover a file exactly, pieces
  put back together give the file, plans keep their bounds.
- `app/`: the command line, the async workers, and the `tdjson` bindings.

The desktop shell (an `eframe`/egui window over the same service) is not part
of this crate: `eframe` is left out of its dependencies, so only the command
line is provided in `app/`.
