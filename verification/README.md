# Term Dash

The rules of Term Dash, a side-scrolling platformer played in the terminal,
as a library verified with Verus, and the Bevy program around it.

- `src/` is the library. Each module states its functions' behaviour in
  `requires`/`ensures` and proves it:
  - `input`: the keys pressed in a frame;
  - `state`: the screens and the keys that move between them;
  - `menu`: the level and world menus (selection, create, two-step delete);
  - `editor`: the editor's undo history and bookkeeping;
  - `registry`: the level files (which files are levels, in which order),
    the registry of loaded levels, saving the current level;
  - `gameplay`: run statistics and the once-per-entry rule of triggers;
  - `paths`: where data and configuration files go;
  - `layout`: centering, the main menu's rows and the death banner's band;
  - `camera`: the braille rendering of the camera picture, cell by cell;
  - `banner`: the title and the death banner's text;
  - `screens`: which texts the menus show (title, list entries, details,
    pause menu);
  - `level`: visualizer bar counts, and how an object's fields and collider
    fall back to its prefab;
  - `order`: the byte order used to sort level files.
- `tests/` runs the library on concrete values.
- `app/` is the game: Bevy systems, floating-point physics and effects,
  audio, egui and terminal drawing, and file I/O. It calls the library for
  the decisions above; what rests on floating point, on Bevy's or egui's
  behaviour, or on I/O stays in it.
