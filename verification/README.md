# waffle_format

The document side of a CAD file format, verified with Verus: the `sources`
table of external content with git blob hashes, persisted STEP payloads
(deflate + base64, inflation capped), the document model (metadata, tabs,
sources) with its validation, and the shims that lift legacy in-feature
STEP payloads into the `sources` table and inline them back.

Layout:

- `src/` — the verified library.
  - `text.rs` decimal and hex renderings, byte comparisons.
  - `hash.rs` git blob ids (`git-blob-sha1:<hex>`) and hash checks.
  - `blob.rs` STEP payload encoding and capped decoding.
  - `ids.rs` UUIDs as 128-bit values.
  - `sources.rs` the `sources` table entries, locators (with their checks
    and git host inference), embeds.
  - `features.rs` the part of a feature tree the shims read and write.
  - `metadata.rs` timestamps, document/project metadata, tabs.
  - `store.rs` the source content store.
  - `part21.rs` ISO 10303-21 text: strings, logicals, the product
    skeleton, the file frame.
  - `assembly.rs` part references of assembly instances.
  - `document.rs` the document, validation, lifting and inlining, and the
    laws that relate them.
- `tests/` — tests of the library on concrete values.
- `app/` — what the library cannot hold: floating-point geometry of the
  tessellator and the STEP writer, and serde glue. `app/assembly_view.rs`
  (assembly evaluation) needs the project's feature engine, which this
  build does not include, and is not compiled.
