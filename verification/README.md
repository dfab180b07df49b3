# somme_cli

Primitives for authenticated, rate-aware command-line clients, written in
Verus with their behaviour stated as contracts and proved.

- `src/` is the verified library: account profiles and their selection
  (`account`, `session`), configuration paths (`product`, `paths`), bearer client
  addresses (`client`), quota headers (`headers`, `rate`), JSON bodies
  (`json`), fair-use details (`fair_use`), response interpretation and
  error reports (`response`, `report`), manual installation steps
  (`manpage`), text utilities (`text`) and cross-function properties (`laws`).
- `app/` is the `somme` command: argument parsing, TOML files, HTTP requests
  and terminal output around the library.
- `tests/` exercises the library on concrete values.
