# hypercircuit

Exact-aware circuit carriers and PCB layout intent. The library's own
functions are proved against their contracts by Verus; the calls into
`hyperreal`, `hypersolve`, `sha2` and std that they make go through a small
set of trusted wrappers (`#[verifier::external_body]`), whose contracts state
what those crates' sources show and are not proved. Numeric checks of values
that are not exact rationals are decided by `hyperreal`'s refinement, which
can differ between calls. The validators state every check that inspects no
number exactly, for every input; a numeric check is stated exactly whenever the
numbers it inspects are exact rationals, and otherwise only the issue it may
raise is fixed. Placement resolution and the exact dense solver follow the same
rule.

- `src/model.rs`, `src/validation.rs`: circuits, buses, ports, device models
  and their structural validation.
- `src/mna.rs`: modified nodal analysis assembly, exact dense solving and
  residual replay.
- `src/layout.rs`, `src/layout_validation.rs`: the declarative PCB layout and
  its structural validation against a circuit, issue by issue in source order.
- `src/placement_resolution.rs`: fixed/relative placement equations and the
  alignment, region, rotation and side checks.
- `src/layout_module.rs`: exact rigid transforms, placement groups and
  reusable layout modules.
- `src/net_class.rs`, `src/routing_aliases.rs`: net-class inheritance and
  numeric routing aliases.
- `src/kicad_schematic.rs`, `src/lceda.rs`, `src/archive.rs`,
  `src/fingerprint.rs`, `src/text.rs`: interchange helpers (field encoding,
  stable UUIDs, file names, stored ZIP archives).
- `src/exact.rs`: the boundary to `hyperreal`: its exact arithmetic is named
  there, and its sign, zero and order queries are stated for exact rationals.

`app/` holds the JSON persistence of legacy handoffs (serde), which Verus does
not see.
