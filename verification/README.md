# mc_launcher_core

The core of a small Minecraft launcher, written in Verus.

- `src/` is the verified library: version lookup (`version`), the accepted
  modloaders and the missing-version error (`launch`), the rules that select
  libraries and arguments for the host and the placeholder substitution
  (`runtime`), the launch plan and the choice of the Java executable (`plan`),
  and the string primitives they rest on (`text`).
- `app/` is the program around it: it reads the version metadata over HTTP
  and JSON, downloads the files the plan lists, looks for Java on disk and
  starts the game.
- `tests/` runs the library on concrete inputs.
