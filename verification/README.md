# russ

The core of a feed reader for the terminal, written and proved in Verus, and the program around
it.

- `src/` is the library. It reads Atom and RSS documents, decides which entries are new, states
  what is asked of the database and of remote hosts, runs transactions turn by turn, and says what
  each key means. Every function has a contract, and the public proof functions named `law_..`
  state what holds across functions.
- `app/` is the program: the terminal, the database, the network and the clock. It does what the
  library asks for, and hands back what came of it.
- `tests/` runs the library, with an SQLite database in memory and with documents in place of the
  network.

What is taken on trust is the behaviour of `atom_syndication`, `rss`, `html_escape`,
`diligent_date_parser`, `num_cpus` and `String::push`, as the comments in `src/` say where each is
called. What SQLite does with a statement is not proved: the laws in `src/listing.rs` say what the
reader makes of rows that answer a query.
