# minecraft_plus_wayland

Animated wallpapers and a lock screen for Wayland, with the logic verified by Verus.

- `src/` is the verified library: the states of the lock and of every animated module, the PAM
  transaction and its conversation, the password buffer, the command line, the module timetable,
  the resource archive and what each module loads from it, the WebAssembly module that simulates
  the fluids (how it is patched and loaded, what its imports get and in which order it is stepped),
  and the byte layouts that the shaders read, beside those shaders.
- `app/` is the program around it: the Wayland event loop, the GPU code, the floating-point
  animation, PAM's C interface and the files.
- `tests/` runs the library.

The assets are not part of the project. They are looked for in the directory `assets`, or where
`MINECRAFT_PLUS_ASSETS`, `MINECRAFT_PLUS_RESOURCES` and `MINECRAFT_PLUS_WEB_WASM` point. The
directory holds `resources.zip`, `mcse_web_bg.wasm`, the textures under `lock/torch/` and the
shaders `lock/torch.wgsl` and `lock/creeper.wgsl` of the two lock scenes. A build of `app/` with the
feature `embed-assets` holds them itself.
