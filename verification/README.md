# conseqa

Static analysis of service models, verified with Verus: structural
validation of operation programs and of identifier uniqueness, the
path enumeration and scope rules requirement verdicts rest on, the
vocabulary of those verdicts, and the diagnostics and obligation
report every verdict is rendered as. The requirement checkers
themselves, and the model-wide reference, field-path and runtime
validation passes, are not part of this crate.

Layout:

- `src/model.rs` — the part of the service model the analyses read:
  operations, their inputs, programs and requirements.
- `src/validation/` — definite-availability analysis of operation
  programs (`programs.rs`), its lattice (`availability.rs`), the
  uniqueness of identifiers across all declarations
  (`declarations.rs`), and every validation error with its diagnostic
  (`error.rs`).
- `src/verification/` — path enumeration (`paths.rs`), proof scopes and
  remedies (`scope.rs`), the records of replay stability and governing-key resolution (`replay.rs`), the verdict
  families and their diagnostics, the model-wide notes, and the
  sentences that describe them (`describe.rs`).
- `src/report/` — the obligation report: the scaffold of every declared
  obligation and the same enumeration filled in from verdicts.
- `tests/` — scenario tests on concrete models.
- `app/` — serializable copies of the report types, with conversions.
