# event_service

The rules of a club's event registration service, written in Verus with their
contracts proved.

- `src/` is the verified library: form schemas and answers (`domain`), verification
  codes (`codes`), event settings and updates (`events`), registration, review,
  check-in and counts (`registration`), the spreadsheet export: its layout
  (`export`) and the xlsx workbook written from it (`workbook`), and who may see
  what (`access`), over a plain JSON value (`json`) and text helpers (`text`).
- `app/` is the service around it: database entities, migration and queries, and the
  HTTP handlers, which read, ask the library, write and answer.
- `tests/` runs the library on concrete values.

Instants handed to the library are nanoseconds since the Unix epoch.
