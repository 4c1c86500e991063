# rust-widgets

Desktop widgets for Wayland: a control center, a volume control and
on-screen display, a media player, a system stats popup and a notification
daemon, driven by the `rw` command.

The library (`src/`) holds what the widgets decide and compute, each
function with a contract that Verus proves:

- `text`, `units`, `order`: characters, decimal and fixed-point text,
  string order and a stable sort by rank and name.
- `notify`: notifications, their history and its capacity, the popup stack,
  markup, hints, and the daemon's reaction to every event and command.
- `control`: bluetooth devices, quick toggles, sliders, media section and
  the bluetooth toggle's press handling.
- `media`, `audio`, `stats`, `osd`, `poll`: what the media player, the
  volume control, the stats popup, the volume display and the system
  readings show, from the output of the programs they run.
- `base`: positions and anchors, style sheets, slide animations,
  single-instance checks and the shared configuration.
- `cli`: the widget table, names and aliases, process matching and the
  plans of `rw show`, `hide`, `toggle`, `reload` and `list`.

`app/` is the `rw` program and the code around the library: reading
`/proc`, the power-supply files and sysinfo, running `bluetoothctl`,
`wpctl`, `pactl`, `playerctl` and the other programs, the configuration
files (serde and TOML), the D-Bus server and the sockets, the GTK4
layer-shell windows of each widget, and the parts computed in floating
point. One binary serves all: started as `rw-control`, `rw-volume`,
`rw-volume-osd`, `rw-notifications`, `rw-media` or `rw-stats` (for
instance through a link of that name), it runs that widget; under any other
name it is the `rw` command.
