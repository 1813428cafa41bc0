# Veltrix

A modular 2D game engine whose core is verified with Verus.

- `src/` — the verified core: entity ids and the sparse-set component
  storage, the `hecs`-backed world, deferred commands, the system
  scheduler, type-keyed resources and asset caches, typed asset handles and
  the asset server's bookkeeping, the event bus, keyboard/mouse edge
  tracking and action maps, collision event buffers, sprite frame stepping,
  the main loop's decisions, and per-user directory resolution. Its functions carry contracts; calls into outside crates go through small
  trusted wrappers, each documented with what it promises (some promise
  nothing, where the outside result depends on chance, the machine or the
  caller's code).
- `app/` — the engine services around the core that Verus does not see:
  the window loop, configuration files, timing, floating-point math,
  cameras, tweening, physics, audio, gamepads, clipboard and system
  information.
- `tests/` — tests of the core.
