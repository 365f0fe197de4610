# pinentry-windows

A pinentry for GnuPG on Windows: it speaks the Assuan protocol with
gpg-agent on stdin/stdout and asks for passphrases and confirmations with a
native Win32 dialog.

The protocol logic is a verified library (`src/`):

- `codec` — percent-decoding of command arguments and percent-encoding of
  data lines, with the round-trip law (for all text) and the one-line law.
- `error` — GnuPG error codes, their texts, and the error value.
- `state` — the session state that SET* and OPTION commands fill, RESET and
  the display fallbacks.
- `protocol` — one input line to the next state and a step (answer lines, a
  dialog to show, BYE), the answers after a dialog, the wire lines, and
  wiping of the copies of a passphrase.
- `dialog` — what each dialog shows, its DPI-scaled control layout and the
  meaning of its outcome, and the passphrase text read from the edit control.
- `text` — small helpers on characters and strings.

The program (`app/`) reads lines, writes answers, and runs the Win32 dialogs.
