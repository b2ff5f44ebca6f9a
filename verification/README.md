# tiltak_interface

The front ends of a Tak engine, with their decisions verified by Verus.

- `src/` is the library. Every function in it is verified against its contract.
  - `protocol`, `go_command`, `position_string` and `settings` read the lines of the TEI protocol
    and what they ask for.
  - `search_position` and `session` keep the state of a session: the position, and the search
    tree that is carried over from one search to the next.
  - `search` runs a search, in rounds or against the clock, and `report` writes its reports.
  - `size_tag`, `threat` and `annotate` look for tak and tinue, and mark them in game records;
    `annotation_laws` proves what holds of annotated games and texts as a whole.
  - `text`, `number`, `error` and `outcome` are what the others are made of.
- `app/` is ordinary Rust around it: standard input and output, the search thread, the browser,
  and the calls into the engine, which is the crate `tiltak`.
- `tests/` runs the library on small games of its own.

The rules of the game, the tree search and the proof search are handed to the library as
functions. Its contracts say which results are possible, given what these functions can return.
Floating-point numbers (scores, speeds, the growth of rounds) stay in `app/`.

One contract is not proved: that of `text_from_utf8` in `annotate`, which calls
`String::from_utf8`.
