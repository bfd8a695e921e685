# zeron_ui

The logic of a chat client's transcript and shell: what its rows are, how they
are kept in step with a growing chat, who moves the viewport, what its dialogs,
panes and tool chips show, and how a workspace moves between a local and a synced
runtime. Every function of `src/` states in its contract what it gives back or
changes, and the laws of the library stand beside the functions they are about,
as `law_` proof functions.

- `src/` is the verified library. Lengths that are only compared are carried by
  their bits (`viewport::Px`); lengths that are computed with are in 64ths of a
  pixel (`layout`, `geometry`) or in whole pixels (`chips`, `titlebar`).
- `app/` is ordinary code around it: the calls of the account, the loading of
  images and highlights, the transcript joined to a list and the right
  pane to what its tabs hold, the floating-point spring, clocks, the network, the
  environment and serialised forms.
- `tests/` runs the library.

What is trusted: `similar` for line diffs (`diff`), `chrono` for the text of a
time (`clock`), `serde_json` for reading and printing values (`json`), and
`String::push` and `char::to_uppercase` of the standard library.
