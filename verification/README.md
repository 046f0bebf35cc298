# typr_lib

The verified core of Typr, a Windows dictation companion with a second
hotkey for email drafts.

- `src/` is the library, proved with Verus: text formatting (fillers,
  spoken commands, dictionary, snippets, punctuation), the settings file's
  versions and migrations, the dictation session and the recorder as state
  machines, overlay layout, streak and purge arithmetic over stored
  transcriptions, the email-draft decisions (prompts, model choice, local
  fallback template, reply clean-up), model downloads and the Ollama
  runtime's bookkeeping. Calls into `regex` and `time` go through small
  trusted wrappers whose contracts name what those crates compute.
- `tests/` runs the library on concrete values.
- `app/` is the desktop shell around it: Tauri windows and commands,
  SQLite storage, HTTP calls to Groq and Ollama, the microphone, the
  credential store, keystrokes and the clipboard.

Settings files are at schema version 3. A fresh install writes the
version 3 defaults and records `settings_version = "2"`; a migrated legacy
file is written at version 3 and records `settings_version = "3"`; a
version 2 file is rewritten at version 3 without a new stamp.
