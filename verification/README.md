# host42

The verified core of 42Host, a desktop application (GTK 4 / libadwaita) that runs and
manages local Minecraft servers.

- `src/` is the library, written in Verus: its public functions carry contracts, and the
  properties that span several functions are stated and proved as `law_*` proof functions.
  - `config` settings and their defaults (per platform), where they are stored, theme and font styles;
  - `server` the server record, statuses, log-line classification;
  - `state` the shared state: server list, runtime state per server (bounded console),
    selection, and how process events change it;
  - `manager` what a start runs (EULA, Java search plan, arguments), process events;
  - `players` who is online, read from the server log;
  - `plugins` plugin file names, listing, switching on and off, importing;
  - `properties` reading, editing and writing `server.properties`, live settings;
  - `console` the command history; `external` launching terminal, editor, file manager;
  - `monitor` uptime text; `text`, `order`, `paths` the text, ordering and path operations
    the rest is built on.
- `app/` is the program around it: windows and widgets, files, processes, metrics.
- `tests/` runs the library on concrete values.
