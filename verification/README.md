# barmarchy

A Touch Bar daemon for Omarchy on Apple Silicon Macs: workspaces, app
icons, sliders, F-keys, themes, a pixel pet and a particle screensaver,
rendered straight to the bar's DRM framebuffer.

## Layout

- `src/` is the library, verified with Verus. It holds the rules of the
  bar: the multitouch parser that turns evdev events into taps, the live
  loop's decisions (modifier overlays, what a tap does, slider throttling,
  debounced toggles, overlay timeouts), the center deck and its plugins'
  state, Hyprland reply and event parsing, the icon-theme search order,
  theme colors and favorites, the screensaver's effect rotation and random
  numbers, config defaults and repairs, and the DRM/evdev request numbers.
  JSON and TOML are parsed by `serde_json` and `toml` behind small trusted
  wrappers; what the library does with the parsed values is verified.
- `app/` is the daemon around it: argument handling, device and socket
  I/O, spawning helpers, cairo drawing and the screensaver's floating-point
  particle effects. It hands the library plain values and acts on what the
  library decides.
- `tests/` runs the library on concrete inputs.
