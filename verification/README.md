# pyc-shell

Pyc is a shell wrapper for people who type in a Cyrillic script: commands
typed in Cyrillic are transliterated to Latin before the shell runs them, and
the shell's output is transliterated back.

Layout:

- `src/` is the library, verified with Verus:
  - `translator/` the transliteration (Serbian, and an identity translator),
    and the expression parser that keeps quoted text as it is;
  - `config/` the YAML configuration, read into plain values;
  - `shell/` the command history, the prompt line, Unix signals, and the
    shell process as seen from the prompt (the end-of-command marker);
  - `runtime/` what each key press does to the line being typed, and the
    actions that follow;
  - `utils/` text helpers and the decoding of terminal input.
- `app/` is the program: command line, terminal, pipes, the shell process
  and the loops that perform the library's actions.
- `tests/` runs the library on concrete values.
