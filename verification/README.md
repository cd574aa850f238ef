# vedit

The core of a small vi-style terminal text editor, written in Verus.

- `src/` is the verified library: the line buffer (`buffer`), positions
  (`pos`), walks through the buffer (`walker`), word boundaries (`words`), the
  cursor (`cursor`), key events (`key`), the normal-mode command parser
  (`input`), the scrolling window and frame layout (`view`), and the editor
  state machine that ties them together (`editor`). Every public function
  states what it returns or changes; the laws of the library (undoing moves
  and edits, the parser resetting after every command, the cursor staying on
  screen after scrolling, ...) are public proof functions beside the code they
  are about.
- `app/` is the terminal program: it reads files and key events with
  crossterm, hands them to the library, and draws the frames it returns.
- `tests/` runs the library on concrete inputs.
