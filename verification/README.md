# moma

A small money manager: wallets, each with a balance in one currency, and the
incomes and expenses booked on them.

- `src/` is the verified library (Verus): decimal text of wallet ids
  (`decimal`), the wallet and transaction records and the queries and records
  made from them (`ledger`), points in time read from the clock (`timestamp`),
  and what the wallet window shows and how it answers its dialogs (`display`).
- `app/` is the GTK program around it: the SQLite database (`store`), the
  widgets (`window`) and `main`. Balances are summed there as `f64`.
- `tests/` runs the library on concrete values.
