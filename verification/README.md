# war_sheet

Reads the battle reports of a naval battle game (JSON files, one per
battle) and lays them out as spreadsheet rows: one sheet per battle phase
and side for the attacks, one per side for the ships' hit points.

- `src/` is the verified library (Verus): the JSON value model, reading a
  report into a battle record (`model/war.rs`; `War::check` names the
  first reason a report gives none, and the program stops on it), the
  attack and hit-point lists, the sheet layout and the rows, decimal text,
  file names and the order of the reports.
- `app/` is the program around it: finding the files, reading them with
  serde_json, writing the workbook with simple_excel_writer, and the C
  entry points.
- `tests/` runs the library on concrete reports.
