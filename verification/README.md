# oh_tray

A tray icon with a menu of applications. Each application of the configuration can be started,
stopped and restarted from its submenu, opened in a browser if it has an address, and started
together with the tray. A mark beside its name shows whether it is running.

- `src/` is the library: the decisions of the program, verified with Verus.
  - `config`: the configuration, the numbers of the applications, the choice of the tray's icon
  - `process`: the table of running processes; starting, watching, stopping, restarting
  - `shell`: how a command line becomes a process
  - `menu`, `ui`, `tray`: the menu, what its entries do, and what it shows
  - `icon`, `locale`, `text`: pictures, the language of the menu, composed text
  - `laws`: what holds over any run of starts and stops
- `app/` is the program around it: the configuration file, the processes, the desktop. It looks
  for the icon that the tray falls back on in `icons/tray.png` beside the program, and draws a
  mark of its own where there is none.
- `tests/` runs the library.

An icon can be a BMP, DDS, farbfeld, GIF, ICO, PNG, PNM, QOI or TGA picture. The decoders of
JPEG, TIFF, WebP, OpenEXR and Radiance HDR are left out: they panic on some malformed files.

The table of running processes is generic over the handle of a process, so the library never
touches one: `AppItem::a_start` takes what has happened, brings the table up to date and returns
what to do next.
