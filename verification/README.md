# fcitx_autotheme

Generates Fcitx 5 Classic UI themes from KDE Plasma desktop themes and
regenerates them when the Plasma color scheme, accent color or theme
changes. The library's contracts are proved with Verus.

## Layout

- `src/` — the verified library.
  - `text.rs`, `paths.rs`: character-level string helpers and path
    arithmetic used by the rest.
  - `breeze/`: the 9-patch generator — fcitx colors, the `RawConfig` tree
    and its INI writer, the KDE color-scheme cascade and stylesheet,
    pixmap blending and tiling, theme discovery, command-line parsing, the
    monitor mode's decisions (`monitor.rs`) and the `theme.conf` contents.
  - `plasma/`: the whole-frame generator — color schemes in both KDE file
    formats and their role resolution, the `theme.conf` tree, theme
    resolution, 9-slice frame composition, the generator's configuration,
    and the XML rewrites of theme SVGs (`xml.rs`).
  - `autotheme.rs`: the watcher's decisions and its debounce state
    machine.
  - `svgz.rs`: compressed theme assets.
- `tests/` — tests of the library.
- `app/` — the programs: D-Bus watching, file and process I/O, SVG
  rendering and the floating-point geometry around it.
