# praxis_hir

The middle of a compiler for Praxis, a small language for reading and
transforming text: name resolution and type inference, coverage of matches,
lowering to a typed tree, and monomorphization. Everything under `src/` is
verified with Verus against the contracts written beside it.

| module | what it holds |
| --- | --- |
| `source` | spans, reports and their codes |
| `types`, `unify`, `typedb` | types, unification, declared types, schemes |
| `symbol`, `scope`, `name_table`, `tables` | declarations, and what is recorded by place |
| `ast`, `descend` | the syntax analysis reads |
| `infer_spec` | what inference records of each construct |
| `infer`, `infer_expr`, `infer_file` | inference |
| `infer_laws` | every expression is given a type |
| `cycles`, `recursion` | types and functions that lead back to themselves |
| `pattern`, `exhaustive` | typed patterns, and what a match leaves out |
| `witness` | naming what a match leaves out |
| `coverage_laws` | what the reports on a match say of its arms |
| `capture` | the names closures take from around them |
| `analysis`, `report_order` | `analyze`, the result for a whole file |
| `tree`, `tree_copy` | the typed tree |
| `lower_spec`, `lower` | lowering |
| `lower_laws`, `file_laws`, `cell_laws` | what is never missing, and what escapes, when a file is lowered |
| `mono_spec`, `mono`, `mono_laws` | monomorphization, and where calls go |
| `catalog` | the types of method-catalog rows |
| `parser_ast`, `parser_lower`, `parser_index`, `parser_copy` | parser expressions |

A module whose name ends in `_spec` states results; the module beside it
computes them and proves that they are those. Proof functions whose names start
with `law_` state what holds of the library as a whole.

`app/` walks parser expressions and asks the input-parser tables what the
library needs to know. `tests/` runs the library on programs and on single
values.
