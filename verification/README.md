# xmind-cli

`xmind` inspects, queries, validates and edits XMind workbooks from the command line,
so that a mind map can be handled as structured data: topics are found by stable
selectors, edits are previewed as diffs before they are applied, and a workbook is
validated before it is replaced.

The library in `src/` is written in Verus. Its functions carry `requires`/`ensures`
contracts over mathematical models (topic trees, `Seq<char>` text, a JSON model of
`content.json`), and Verus proves the code against them.

## Layout

- `src/domain/`: topics, sheets and workbooks; topic paths and selectors with their
  parsers and renderers; the query language; diffs and mutation plans.
- `src/infra/xmind/`: the JSON model of `content.json`; reading it into the domain
  model, writing the model back, and editing topics in place (rename, notes, labels,
  markers, links, images, delete, move, copy); the structural validator; image assets.
- `src/infra/fs/`: backup locations, the temporary file a write goes through, and the
  decisions taken for workbooks kept in iCloud Drive.
- `src/cli/`: the parsed command line and the error envelope with its exit codes.
- `src/app/`: what each command computes: selector resolution (an ambiguous selector
  is refused), sheet choice, `set` and `move`/`delete` plans, patch planning, topic id
  allocation, Markdown outline import, and the JSON results of the read commands.
- `src/text.rs`: character-level helpers.
- `app/`: the `xmind` executable: argument parsing with clap, zip packages and serde
  (de)serialization, file I/O, and the loop that runs the iCloud download tools.
- `tests/`: tests of the library on concrete values.

Laws that span several functions are public proof functions, for example
`law_ambiguous_selectors_fail` (`src/app/resolve.rs`), `law_edit_reads_back` and
`law_removal_takes_the_topic_asked_for` (`src/infra/xmind/content.rs`),
`law_title_query_reads_back` (`src/domain/query.rs`), `law_allocated_ids_are_fresh`
(`src/app/topic_ids.rs`), `law_placeholder_round_trip` and `law_logical_round_trip`
(`src/infra/fs/cloud.rs`) and `lemma_path_round_trip` (`src/domain/path.rs`).
