# mameuix

The filtering and list logic of the MAMEUIx front-end for MAME, as a
library whose behaviour is stated in contracts and proved with Verus.

- `src/` — the verified library:
  - `models` — games, ROM states, filter settings and their per-game predicates;
  - `filtering`, `sorting`, `catalog`, `text` — the shared filter engine,
    stable column sorting, clone lookup and name sets, and string helpers;
  - `panels` — the legacy shell: the filter-result manager and its caches,
    the game table and card list (filtering, ROM-set de-duplication, clone
    expansion), the sidebars, the software-list browser, artwork lookup
    (including the archive entry that holds it), image decoding and icon
    scaling, and icon bookkeeping;
  - `redesign` — the redesign shell: session state, collections and decades,
    filter synchronisation, table rows, settings and keyboard shortcuts;
  - `themes` — the classic theme's status colours.
- `tests/` — tests of the library.
- `app/` — the egui layer around it: drawing, reading files, texture upload,
  loader threads, clocks and colours.
