# tanuki

An agent multiplexer that lives in your terminal. This repository holds its verified
core and the program around it.

- `src/` is the library. Everything that the program decides stands here, with contracts
  that Verus proves: the cloud relay's sessions and replay (`remote`), uploads and their
  staging (`client`, `server::clipboard_image`), what clients are sent when the screen
  changes (`server::render_stream`), the installer (`platform`), the settings
  (`ui::settings`, `app::config_io`), window titles and background programs.
- `tests/` runs the library on concrete values.
- `app/` is the program: sockets, files, threads and drawing. It does what the library
  says and reports back what came of it.

Functions named `law_...` state what holds of several operations together: that a viewer
which reconnects receives exactly what it missed, that a staged file name is always one
safe path component, that an update never removes the release in use, and so on.
