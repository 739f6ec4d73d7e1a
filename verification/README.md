# shusei

The core of a reading app for scanned and imported books: a library of
books with notes and saved vocabulary, OCR of page photos and PDF pages,
and speech-to-text bookkeeping. The logic is written in Verus, with
contracts that the verifier proves.

## Layout

- `src/` — the verified library.
  - `text` — string helpers with specifications (splitting, trimming,
    joining, numbers as text, lines).
  - `error` — the library's error types.
  - `db`, `models` — book, note, word and progress records; identifiers
    and timestamps.
  - `json`, `vocab` — vocabulary extraction and export (Markdown, CSV,
    JSON through `serde_json`).
  - `tokenizer` — a character tokenizer, and the `tokenizers` tokenizer
    behind stated contracts.
  - `ocr` — reading order, stable ordering of regions, Markdown
    assembly, CTC decoding, non-maximum suppression and paragraph
    grouping.
  - `stt` — decoder state and key/value cache bookkeeping, audio guards.
  - `storage` — file naming and path rules for stored images and state.
  - `pdf` — PDF loading through `hayro`, page batches, and the
    conversion plan as a state machine of actions.
  - `platform` — platform stubs, asset paths, lifecycle event codes.
  - `screens`, `pages` — the decisions behind the library, import,
    vocabulary, notes, reader and capture screens.
- `tests/` — tests of the library on concrete values.
- `app/` — the program around the library: database, file system,
  model inference and float computations, platform bindings, and a small
  command line.
