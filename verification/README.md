# pezmax

Core of the PezMax One desktop client (exam-paper resources), written in Verus:
every function in `src/` carries a contract, proved by Verus except for the few
marked wrappers around std, base64, semver, machine-uid and hostname.

- `app_state` — the main window's state without its widgets: the initial state from the saved
  session and settings, one step per finished background request (login, registration,
  password recovery, account editing, reports, uploads, favorites, the paper viewer) with the
  disk, request and animation effects it asks for, the start of each request, logout, and
  the settings mirror that decides when to save and when to update the start-up entry.
- `search`, `loaders` — the search box's 300 ms pause; which avatars and covers to fetch.
- `nav` — sections, tabs and navigation effects; loading state of fetched data; toasts cap.
- `menu`, `tree`, `toggle`, `layout`, `menu_state`, `menu_nodes` — the application menu
  published over DBusMenu: item model, the menu tree with its stable ids, check-state updates,
  layouts, property sets, and the service state (theme and accent changes check exactly one
  radio); the built tree's ids are distinct and the commands are exactly its plain items.
- `update`, `distro` — release version comparison, Linux family detection from
  `/etc/os-release` text, installer selection.
- `crypto` — obfuscation of the remembered password (round trip proved).
- `cache` — on-disk cache layout and the cached RGBA render format (round trip proved).
- `counter` — odometer counter (the wheels read the target value).
- `toast`, `forms`, `session`, `api`, `models`, `community`, `contribute`, `browse`,
  `autostart` — toasts timeline, form checks, login/registration decisions, request shapes,
  data model, report timeline and filters, picked files of a contribution, paper filters,
  start-up setting.

`tests/` exercises the library on concrete values. `app/` is the headless program around it:
storage, HTTP endpoints, SQLite, the update check, the DBusMenu service.
