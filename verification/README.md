# concord_tui

The state and decision logic of a terminal Discord client's dashboard, written in
Verus and verified: text inputs, pane filters, popups, the poll picker, the
reaction picker's selection, filter state and popups, key bindings, pasting, the
clipboard's data, the media caches and avatar URLs, message layout arithmetic,
mention highlights, the channel tree and the command scheduler's decisions.

- `src/` is the verified library. Public functions state in their `ensures` what
  they return and how they change their arguments, over spec functions and views;
  properties that span several calls are public proof functions named `law_*`.
- `tests/` runs the library on concrete values.
- `app/` is the unverified side: the system clipboard, terminal modes, image
  decoding and drawing, terminal image protocols, key events and the command
  channel. It makes the I/O calls and hands their results to the library.
