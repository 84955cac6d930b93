# periscope

The part of a Kubernetes console that decides things: what is known of every
cluster, what is on screen, what may be changed, and what a keystroke or an
event leads to. All of it is proved with Verus; nothing in `src/` reads a clock,
a file or a socket.

- `src/objects.rs`, `sessions.rs`, `mutation.rs`, `events.rs`: what clusters
  send and what they are sent.
- `src/table.rs`, `pods.rs`, `rows.rs`, `connections.rs`, `permissions.rs`,
  `catalog.rs`, `columns.rs`: what is held, how it is ordered and filtered, who
  may change what.
- `src/filter.rs`, `logs.rs`, `times.rs`, `logview.rs`: lines of log, bounded,
  filtered, ordered by time and searched by it.
- `src/model.rs`, `app.rs`, `laws.rs`: the state of the console, and what holds
  of it whatever happens.
- `src/palette.rs`: everything that can be jumped to, found by a few letters.
- `src/console.rs`, `workspace.rs`, `proposal.rs`, `remembered.rs`, `fields.rs`,
  `keys.rs`: what somebody does at the console, and what is sent for it.
- `src/views.rs`, `panes.rs`, `wording.rs`, `perf.rs`: what there is to draw.
- `src/keyed.rs`, `sorting.rs`, `seqs.rs`, `text.rs`, `value.rs`, `clock.rs`:
  what the rest is made of.

`app/` is the window around it: the clocks, the files and the toolkit.

Commands leave through an outbox (`Workspace::take_commands`), and whoever sends
them reports back (`Workspace::delivered`). Points in time are handed in.
