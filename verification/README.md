# platform-linux

The decisions behind driving windows and pointers on a Hyprland session, written
in Verus: each function states what it returns or changes, and Verus proves it.

The library in `src/` does no input or output. It is handed what the compositor
reported and gives back an answer, a refusal, or the next thing to do.

- `identity`, `registry`: what identifies a window, and ids that stay with one
  window although the compositor reuses addresses.
- `session`, `monitors`, `visibility`, `windows`, `lookup`: whether there is a
  session to drive, how its monitors lie, which windows show, how they are
  listed and found.
- `capture`, `desktop`: where the pixels of a screenshot lie on the desktop and
  on its outputs.
- `focus`: lending the focus to a window and giving it back.
- `pointer`, `names`: virtual pointers that hold a button over several requests.
- `commands`, `json`, `text`, `error`: the commands that are run, and the texts
  that go in and come out.
- `registry_laws`, `window_laws`, `focus_laws`, `pointer_laws`: what holds across
  several operations.

Scales are floating-point numbers. The library orders them by their bits and
takes the arithmetic on them from its callers as functions.

`app/` runs `hyprctl` and `grim`, talks to the compositor over Wayland, reads
JSON and does the floating-point arithmetic. `tests/` runs the library on
concrete values.
