# rapid_driver

A process manager for the devices of a robot. It discovers devices on the USB bus and over mDNS,
runs a command for each of them, watches their heartbeats, publishes a bit mask of the devices that
can be used, records their messages to MCAP files and replays those files.

## Layout

- `src/` is the library: all rules of the program, each with a contract that Verus proves.
  - `registry`, `udev_rule`, `discovery`: registered devices, and how they are found.
  - `mask`: the order of the bits, the published record and its debug form.
  - `engine`: processes and their restarts, heartbeats, statuses, commands, recordings, replays, and
    how MCAP files are read.
  - `api`, `cli`, `tui`: what is answered over HTTP, asked on the command line and shown in the
    terminal.
  - `text`, `order`, `seqs`, `name_map`, `json`, `clock`: what the rest is made of.
- `tests/` runs the library with the outside crates linked.
- `app/` is the program around the library: files, processes, sockets, the terminal and HTTP. It
  performs what the library decides and tells it what came of that.

## Conventions

- Times are nanoseconds on a clock that never goes back, and come in as arguments.
- Doubles are kept as their bits. What is computed with them stays in `app/`.
- Outside crates are called behind a few functions whose contracts are trusted. Each says in its
  comment what is claimed of the outside function.
