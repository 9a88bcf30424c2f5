# restaapp_printer

The Windows print agent of RestaAPP: it polls the branch's print jobs (woken
early by the server's event stream), downloads each document, prints it on the
Windows printer mapped to the job's area, opens the cash drawer for final
customer receipts only, and reports `done`/`failed` to the server.

- `src/` is the verified library (Verus). Every rule of the agent lives there
  with its contract: how a job is routed (`polling`), how a document is printed
  and what follows a failure (`printers`, `scripts`), how the configuration is
  stored and read back (`config`), how the branch key is kept and masked
  (`secure`), and how the server's answers and event stream are read (`api`).
  `text` holds the character-level helpers, `models` the data.
- `app/` is the desktop program around it: the Tauri window and tray, HTTP,
  files, PowerShell, Windows DPAPI and the serializable copies of the data.
- `tests/` runs the library on concrete values.
