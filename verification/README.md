# a2ltool

The logic of a2ltool, a tool that edits A2L files (ASAM MCD-2 MC), written in
Verus and proved against its specifications.

## Layout

- `src/creator/`: creating A2L items from definitions in C source comments.
  - `scanner.rs` finds the comments that hold definitions (lines that start
    with `@@`) and splits them into tokens, skipping string and character
    literals.
  - `parser.rs` reads the tokens of one definition; `definitions.rs` holds the
    data model of definitions and its mathematical model; `literals.rs` reads
    numbers.
  - `naming.rs`, `split.rs` and `overwrite.rs` name the items of split arrays,
    build format strings and input signal names, and apply the overwrites of
    structure instances.
- `src/debuginfo/`: the type model of debug information (DWARF or PDB): type
  sizes, references, comparison of types, the built-in types of PDB, DWARF
  base types, units and demangled C++ names, and the enumeration of
  variables and the parts of their types. `typereader.rs` reads the types
  of DWARF debugging information entries (given as a table of plain
  values): base types, pointers (also to types that are still being read),
  arrays, enums, structs, unions and classes with their members, bit
  fields and base classes, typedefs and qualified types.
- `src/symbol.rs`: symbol names, their components, and the lookup of a
  symbol in the debug information: the variable, then struct members and
  array elements, with the message for each part that is not found.
- `src/datatype.rs`: the A2L data type of a debug-information type.
- `src/names.rs`: maps of item and symbol names, and unique names for new
  measurements, characteristics and record layouts.
- `src/search.rs`: selecting items by regular expression or address range.
- `src/insert.rs`: which variables and symbols become new measurements and
  characteristics, under which names, the messages that report it, and the
  characteristic made for a symbol with its default record layout.
- `src/group.rs`: the groups of a module, adding new items to a group, and
  entering items under the group paths of creator definitions.
- `src/reclayout.rs`: record layouts: their update from the type of the
  item that uses them, shared or split by use counts.
- `src/update.rs`: which symbol an item stands for in an address update,
  and which items are updated, kept or removed.
- `src/remove.rs`: removing the items of a module by name or address range,
  and the references to them from its groups.
- `src/calibrate.rs`: binary file formats, and the calibration CSV files:
  reading their entries and writing values back into them.
- `src/ranges.rs`: address ranges given as pairs of values.
- `app/`: the command line front end, which reads files and prints what the
  library finds. `app/dwarf.rs` decodes the entries of an ELF file with
  `object` and `gimli` into the table that the type reader takes;
  floating-point value limits and axis descriptions live in `app/` too.

Each public function states what it returns in its `ensures`; the public
proof functions whose names start with `law_` state properties that span
functions.
