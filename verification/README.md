# ricercar-grammar

The patch grammar of a synthesizer that searches for your sound: patches are
terms of a typed combinator grammar over synthesizer modules, and every
choice in a term has an address in a canonical trace, which is what
evolutionary search mutates and what a front end's knobs edit.

The library is written in Verus. Every function in `src/` carries a contract,
and the properties the grammar promises are stated and proved as laws:

- `term` — the categorical palette and the term tree (`PatchTree`,
  `AudioNode`, `ModNode`), with their measures and canonical forms.
- `genome`, `trace`, `encoding` — the address scheme, the trace type, and
  the encoding of a patch as a trace and back (the round trip and the
  trace's size are laws).
- `mutate` — the structural edit vocabulary and the validity check it
  agrees with.
- `edit`, `diff`, `domain` — knob edits at an address, address-ordered trace
  diffs, and repair of out-of-domain continuous values.
- `describe` — the rack a front end draws; every knob and structural address
  it shows is a live site of the patch's trace.
- `turning`, `repair` — what knob edits and domain repair do to a trace:
  every knob the rack shows can be turned, and repair always rebuilds a
  patch whose values are all in their domains.
- `text` — the decimal and message text the library builds.
- `presets`, `sexpr`, `wiring` — the preset library, the s-expression
  rendering, and the compiler's decisions that depend on the term alone.

Continuous parameters are held as the bit patterns of `f64` values. `app/`
holds what needs floating-point arithmetic or outside traits: the serialized
`f64`-valued copies of the types, the runtime's trace representation, the
structural distance, and the parameter maps.
