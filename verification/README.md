# Diskette

Diskette is a GTK4/Libadwaita desktop front end for the Yandex Disk command
line client (`yandex-disk`). It runs the client with typed options, shows
what it reports, and writes the client's configuration file.

## Layout

- `src/` — the verified library (`diskette`), checked by Verus:
  - `text` — the model of the string operations used everywhere (trimming,
    lines, searching, replacing, words, decimal numbers);
  - `i18n`, `catalogs` — message catalogs and locale choice;
  - `command_line`, `command_options`, `command_request` — shell quoting,
    command options and the arguments of each request;
  - `command_output`, `size` — summaries, log entries, daemon and storage
    status read from the client's output;
  - `setup`, `setup_storage` — the configuration file: paths, quoting,
    reading back, and what saving writes;
  - `services` — preparation and run mode of requests, the authorization
    output stream;
  - `ui` — form values, status display and the window's response to events.
- `app/` — the program: GTK widgets, processes, threads and file access,
  driven by the library's decisions.
- `tests/` — tests of the library.
