# slm_inference

Building blocks for running small language models locally, written in Verus:
chat-template formatting, the turn sequencing of a conversational oracle, the
decisions of the autoregressive generation loop, JSON-schema to Lark grammar
conversion, and an EPUB reader that turns a book into sections of plain text.

## Layout

- `src/` — the verified library.
  - `text.rs` — character-level algorithms (search, trimming, reasoning blocks).
  - `formatter.rs`, `models/` — the `Formatter` trait with its mathematical model,
    the Gemma 4, Llama 3, Mistral, Phi-4 and Qwen 2.5 templates, and
    `DynamicFormatter`, selected by name.
  - `oracle.rs` — `OracleCore`: BOS injection, turn opening and closing,
    snapshots, rollback and the post-processing of answers.
  - `chat.rs` — `ChatCore`: the single-call chat, where every prompt is a whole
    turn and tool responses continue the assistant turn or get a turn of their own.
  - `generation.rs`, `action.rs`, `answer.rs`, `vocab.rs`, `context.rs` — what the
    generation loop decides after each token, the callbacks that steer it, and
    the answers it produces.
  - `lark.rs` — grammar generation for constrained decoding.
  - `epubscan/` — EPUB reading: ZIP entries, `container.xml`, the OPF package,
    the NCX table of contents, XHTML rendering into paragraphs, path resolution.
  - `laws.rs`, `markup_laws.rs` — properties that relate several functions, stated
    and proved (the latter: Gemma's `strip_tags` undoes the formatter's own markup).
- `tests/` — tests of the library on concrete values.
- `app/` — the unverified shell: inference engines, the conversational oracle
  around `OracleCore`, the chat around `ChatCore`, grammar-constrained sampling, model download, file input.
