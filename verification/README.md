# kitsune-compositor-backend

A compositor-neutral backend for Hyprland and Niri sessions, verified with Verus.

- `src/` is the library, verified by Verus: compositor detection and health reports, the application catalog
  and running-application listing, wallpaper renderer commands, `systemd --user`
  unit rendering with its private registry, portable automations, the active
  media registry, appearance providers and Caelestia operations, the KiSDDM
  greeter, the command line and the v1 error contract. Operations that touch
  the file system or run programs are split: the library decides, and returns
  the next step of a run (`BatchRun`, `RemovalRun`, `StartRun`) that the
  caller performs and reports back, or drives such a run itself through the
  executor it is given (`ApplyRun`: Caelestia's operations and their rollback). A `ProcessExecutor` may answer one
  request differently from one call to the next, so contracts speak of its
  answers through the relations `finds` and `answers`: which program and
  arguments were asked for, and what was done with the answer that came.
- `src/**` also states the laws the library keeps, as public proof functions
  named `law_*`.
- `tests/` exercises the library on concrete values.
- `app/` is the `kitsune-compositor` program: command-line I/O, IPC with
  `hyprctl` and `niri`, files under XDG directories, image decoding, and the
  floating-point parts of palettes, wallpaper transitions and output models.
