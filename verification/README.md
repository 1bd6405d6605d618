# substrait_textplan

Reading and writing Substrait plans in the textplan format, with the logic verified by
Verus.

## Layout

- `src/proto.rs`: the Substrait values that the textplan logic reads (types, literals,
  expressions, relation kinds, extension declarations), and the exchange of whole plans
  with their protobuf and JSON encodings through `prost` and `serde_json`.
- `src/textplan/common/`: locations in text and in protobuf messages, errors, parse
  results, string escaping and the text helpers the rest builds on.
- `src/textplan/symbol_table.rs`: the symbols of a plan, with unique naming, lookup by
  name and by location, and the data of relations (their kind, root names, the positions
  of the relations their pipelines link them to, and the positions of the field symbols
  that come into them, that they make and that they put out).
- `src/textplan/parser/`: the error listener, the symbol-building visitor over parse
  nodes, type reading, the literals of constants, the symbols of extension spaces,
  functions, sources and relations, the linking of relations along pipelines, and the
  state of the parsing passes, and the filling in of the fields that come into relations
  along their pipelines.
- `src/textplan/converter/`: the passes over a binary plan (recording relations with
  their fields and linking them to their inputs), relation trees and their substrait form,
  the building of a relation's tree from its pipeline links, the output width of a
  relation, the plan that a symbol table declares and its binary encoding, and JSON
  loading and saving.
- `src/textplan/printer/`: printing of types, literals and expressions.
- `src/build_tools/`: the visitor code generator: indexing the messages of protobuf
  descriptors, the naming rules, ordered name sets, and the text of the generated visitor
  and walking traits (templates rendered by `tinytemplate`).
- `app/`: file access, conversions from `substrait` values and `prost_types` descriptors,
  the generator's entry point that writes the generated file, and an error type with the
  standard error traits.

The proof functions named `lemma_*` that are public state the laws of the library, such
as that reading a printed type gives the type back and that unescaping undoes escaping.
