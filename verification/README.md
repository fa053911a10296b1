# flutter

Runs Flutter apps from an editor and shows their log.

- `src/` is the library, written in Verus. It makes the decisions: which targets a worktree
  holds, which command runs one, where the app's Dart VM service is looked for and for how
  long, what is sent to it and what its messages mean, and what the log panel shows. Every
  function's contract says what it returns; the `law_` functions state what holds across
  several of them.
- `app/` does what the library asks for: it opens sockets, starts processes, reads files and
  draws the panel. The modules that draw are built inside the editor's workspace, with
  `--cfg zed`, since gpui is a crate of that workspace.
- `tests/` runs the library on concrete values.

Four things are trusted rather than proved, each with its claim in the comment above it:
`String::push` of std (`text`), the local time of `chrono` (`clock`), the JSON strings of
`serde_json` (`json`) and the searches of `regex` (`vm_service`).
