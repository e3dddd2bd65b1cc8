# leaf

The verified core of Leaf, a text editor for sheets kept on Google Drive or
in local files, with terminal tabs in its desktop app.

`src/` holds the editor's decisions and text handling, each function with a
contract proved by Verus:

- `text`: decimal numbers, stored-number parsing, trimming, first lines,
  lexicographic comparison;
- `sheet`, `sheet_list`: a sheet's tab title, gutter status, save plan,
  sync with Drive, category changes, and the list of open sheets;
- `tabs`, `splits`: the shared order of sheet and terminal tabs, which tab
  becomes active, keyboard cycling, and the split view each terminal
  remembers;
- `file_list`, `file_dialog`: the file dialog's list, its sorting, its
  stored display choices, its categories and keyboard navigation;
- `dialogs`, `preview`, `shortcuts`, `keymap`: keyboard handling of the
  dialogs, the preview windows, the Alt shortcuts, and where each key press
  in the main window goes;
- `file_content`, `char_code`: file bytes with and without a byte order
  mark, and the character-code panel;
- `storage`: the stored form of a sheet and how sheets and the active tab
  come back at start-up;
- `oauth`, `terminal`, `clock`, `settings`, `env_file`: sign-in, terminal
  shells and output, the clock, stored settings, and the `.env` file read
  at start-up.

`app/` is the desktop backend around it: files, processes, network and
pseudo-terminals. `tests/` runs the library on concrete values.
