# fresco

Verified checking logic for the fresco shading language, written in Verus.
Every function in `src/` carries a `requires`/`ensures` contract that Verus
proves; numbers are exact rationals (`num::Num`), so constant folding is exact.

Layout of `src/`:

- `num`, `sx`, `value`, `ast`, `diag`, `text`, `types`: exact literals, symbolic
  lanes (`Sx`) with their static evaluation, checked values, syntax, diagnostics
  and string helpers.
- `checker`, `scopes`: the checker state and lexical lookup.
- `fold`, `same`: literal folding, operand ordering and symbolic factoring.
- `binops`, `components`, `payloads`, `params`: binary operators on values,
  member access and swizzles, material and vertex payloads, compile-time
  parameter literals.
- `enums`, `naming`, `overloads`: enum variants, name suggestions, variant
  predicates and pattern expansion, overload scoring.
- `globals`, `surface`, `merge`, `helpers`, `invariance`, `workbook`: global
  uniform layout, material property inheritance, merging conditional values,
  helper lowering state, helper invariance analysis, span capture.
- `declare`, `models`: parameter declarations, and material models with their
  schema programs and evaluators.
- `laws`: proof functions stating properties that relate several operations.

`tests/` exercises the library on concrete inputs.
