# tinyOLAP

A small columnar OLAP engine: SQL in, a logical plan, an optimised physical
plan, and pull-based operators over a table stored as immutable parts of
compressed column files with per-part zone maps.

The library (`src/`) is written in Verus and verified. Functions state what
they compute in `requires`/`ensures`; where a result rests on something
outside the library (a hash that depends on the CPU, a shared counter, a
random seed, the bytes a compressor picks) the contract states what holds of
every outcome. The properties that span functions are stated and proved as
lemmas.

- `frontend`, `parser` — parsing SQL text (by `sqlparser`), the SQL statement
  tree the engine accepts, name and type analysis, and lowering into the
  engine's own statement tree.
- `logical_plan`, `physical_plan` — lowering and the rule-based optimisers
  (constant folding, TRUE-filter elimination, type coercion, predicate
  pushdown into zone-map scans).
- `storage`, `encoding` — column files (blocks of plain-encoded values,
  LZ4-framed, with granule marks), string columns, zone maps and their byte
  layout, part naming; each format comes with a read-after-write lemma.
- `execution`, `processors` — the operators' decisions: filter masks,
  projection, limit, grouping keys, pruning parts by zone map.
- `aggregator` — SUM, MIN, MAX, COUNT as mergeable partial states, grouped
  per-key accumulation, and a count-min-sketch top-k.

`app/` is the shell around it: the REPL, reading and writing files, turning
`sqlparser`'s tree into the library's, printing results, and the aggregates
that add floats.

Zone-map pruning is proved sound end to end: the zone map a part is written
with holds every row of the part, so a part the scan skips holds no row the
WHERE filter would keep (`processors::pruning`).
