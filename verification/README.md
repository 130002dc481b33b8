# tepegoz_tui

The terminal client of Tepegöz as a Verus library: what the client decides,
computes and draws is stated in contracts and proved; talking to the terminal,
to the daemon and to other programs is left to a thin program around it.

## Layout

- `src/` is the library.
  - `input`, `mouse`, `keys` read the bytes of the terminal.
  - `geometry`, `tile` lay the tiles out and move the focus between them.
  - `docker`, `logs`, `ports`, `fleet`, `list`, `picker` hold what a tile shows.
  - `model`, `app`, `event` are the application: a mathematical model of its
    state, the functions that carry it out, and what goes in and out.
  - `laws` holds what spans several of these.
  - `session`, `status`, `config`, `doctor` decide for the connections and
    commands.
  - `pty` stands for the terminal emulator.
  - `scene` describes every screen as a list of drawing steps.
  - `tasks` decides for the build and demo tasks.
  - `text`, `proto` hold what the others share.
- `tests/` runs the library.
- `app/` is the program: arguments, sockets, the terminal and processes.

## What is proved

The state of the application is modelled by `AppModel`. Every event takes one
model to the next, and `App::handle_event` is proved to do just that. The
functions of `scene` are proved to draw the scene that the model calls for. The
laws say, for instance, that a destructive container operation is sent only
after it was confirmed, that bytes which are part of no command reach the shell
unchanged and in order, that ids are never reused, and that the tiles cover the
screen without overlapping.

Functions that call into other crates or into parts of the standard library
that have no specification are trusted. Each says what is taken on trust.
