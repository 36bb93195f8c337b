# Konnect

Board routing for KiCad: what to ask KiCad for, what its answers amount to, and whether a
proposed trace or via keeps clear of what is on the board.

`src/` is a library whose every function is verified with Verus. It does no I/O and no
floating-point arithmetic.

- Conversations with KiCad are functions of the replies so far (`step`): each says which
  command to send next, or how it ended. `envelope` judges a single exchange; `session`,
  `items`, `tracks`, `identity`, `zones` and `geometry` read the board; `mutate`, `commit`,
  `edits` and `flows` change it.
- `clearance`, `route_check`, `via_check` and `inspect` judge measured distances. Numbers travel
  as the bits of a binary64 value (`scalar`), which the library compares and never computes.
- `board_file` edits the text of a board file; `json`, `requests` and `tools` read tool calls.
- `footprint_item` puts a placed footprint together.

What the library promises across functions is stated in public proof functions, such as
`unreachable_means_not_delivered`, `an_unpublished_batch_is_dropped`,
`no_near_copper_or_edge_escapes` and `a_safe_route_was_fully_checked`.

`app/` is ordinary Rust around it: sockets, files, distances in floating point, JSON and the
tool handlers. The messages generated from KiCad's schema and the S-expression parser come in
through the traits `wire::Protocol` and `board_io::BoardFiles`.
