# gpt_image_2_skill

The decisions of the `gpt-image-2-skill` command line tool, verified with Verus.

The tool makes images in three ways. It hands a single command to a shared
daemon, which it brings up if need be. It fans a file of jobs out to child
processes, a bounded number side by side, with retries. And it asks the daemon
about jobs that nobody waited for, by their tickets.

- `src/lib.rs` finds the part of the tool that a command line is for.
- `src/daemon.rs` says where the daemon listens and how it is brought up.
- `src/client.rs` builds requests and leads a command from the daemon's answer
  to a reply; `src/outputs.rs` says which files are copied where.
- `src/tickets.rs` is the store of tickets, and `src/jobs.rs` the asking about
  them.
- `src/fanout.rs` reads the jobs, `src/pool.rs` orders their runs, and
  `src/tasks.rs` reads what each run left.
- `src/json.rs`, `src/text.rs`, `src/paths.rs` and `src/args.rs` hold what the
  others share, with all that is taken on trust from `serde_json` and the
  standard library.

`app/` is the ordinary Rust around the library: the environment, files, the
network and processes. It reaches the image core and its server through the
trait `Core`.
