# mkutils

A toolkit of small building blocks, written in Verus and proved against its contracts.

## Layout

- `src/` — the verified library:
  - `active_vec`, `geometry`, `saturating`, `output`, `outcome`, `optional_result`,
    `indexed`, `is`, `fmt`, `debugged`, `read_value`, `run_for`: small value types;
  - `interval_set`: a set of intervals kept sorted, with touching or overlapping
    intervals merged and empty intervals kept as marks;
  - `text_model`, `text_summary`, `chunk_summary`, `distance`, `length_summary`:
    summaries of texts (numbers of newlines and graphemes, line lengths) and how they add;
  - `segmentation`, `chunk_storage`, `chunk`, `chunk_iter`, `extended_grapheme_iter`: a
    chunk of at most 256 bytes of text, its extended graphemes and newline positions, and
    two walks through it (one keeping a text summary, one the lines and graphemes passed);
  - `utf8`, `rope_builder`: the longest valid UTF-8 run of a byte sequence, whether the
    bytes after it are invalid or a scalar cut short, and the reading of a stream into a
    `ropey` rope, valid run by valid run;
  - `alias_hash_map`: a hash map whose keys may be aliases of other keys, looked up by
    following the aliases and finding nothing where they run in a circle;
  - `key_map`: keystrokes written as text (`ctrl+shift+f5`), key bindings, and the state
    machine that follows key sequences;
  - `derive`: the code that a set of derive and attribute macros generate, as text.
- `app/` — what stays outside the proofs: turning the macros' input into the library's
  model of it with `syn`,
  terminal key events, configuration files, the reads of a rope's input, the clock,
  processes and tasks.
- Not here: the rope as a tree of chunks (its split and its walks by atom and by line),
  which rests on a sum-tree crate that is not among the dependencies, and a key map's
  trie, whose crate is missing too.
- `tests/` — tests of the library on concrete values.
