# symb_anafis

Symbolic expressions with differentiation, and a bytecode back end that
compiles them into register programs. The library under `src/` is written in
Verus: each function states its result in its contract, and Verus proves it.

## Layout

- `src/number.rs`, `src/text.rs` — exact decimal literals and character helpers.
- `src/symbol.rs` — the symbol registry: interning, lookup by name and by id.
- `src/expr/`, `src/ast/`, `src/diff/` — expression trees, their printers, the
  builders that apply functions to registered symbols, and
  differentiation (sum, product, quotient, power and chain rules, with the
  notation for derivatives of user functions).
- `src/bytecode/` — the back end:
  - `instruction.rs`, `fields.rs`, `uses.rs` — the register instruction set;
  - `compile.rs` — compiling an expression to instructions over virtual
    registers, with its constant pool and its errors;
  - `gvn.rs` — value numbering: repeated instructions dropped, their readers
    renamed;
  - `vir.rs`, `vir_fusion.rs`, `schedule.rs` — instructions over virtual
    registers: dead-code elimination, multiply-add fusion, shared reciprocals,
    greedy scheduling;
  - `lower.rs`, `reg_alloc.rs`, `alloc_safety.rs` — register allocation and
    the proof that live values never share a register;
  - `dce.rs`, `fusion.rs`, `pairing.rs`, `power_chain.rs`, `compact.rs` — the
    passes over physical registers;
  - `validate.rs`, `assemble.rs` — program validation and the flat encoding.
- `app/` — what stays outside verification: the process-wide symbol registry,
  displayable errors, the chain from an expression to allocated bytecode with
  the constant pool turned into floating-point values, and the passes that decide on floating-point constants
  (strength reduction, constant folding in fusion) with the pipeline that runs
  them between the verified passes.
- `tests/` — tests of the library.

Laws that span functions are public proof functions named `law_*`, next to the
functions they speak of.
