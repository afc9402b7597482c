# saykocraft_launcher

The SayKOCraft Minecraft launcher: it signs players in against the
SayKOCraft service, installs modpack instances (Minecraft, its Java
runtime, NeoForge and the pack's files) and starts the game.

- `src/` is the verified library. The launcher's rules stand there with
  contracts proved by Verus: where settings and instances live
  on disk and what a settings change does, the state of each instance, what
  an install downloads and checks, how the game's command line is built, the
  console history, the local session bridge's replies and the profile icon.
  Checksums, Base64, JSON text, random bytes and image work are left to their
  crates behind small trusted wrappers, each with the contract it is given.
- `app/` is the launcher around it: files, network requests, processes,
  threads, the keyring and logging, and the order in which these are done.
  It asks the library what to do at each step and hands it what it read.
  A few readings the library cannot make stay there: numbers read as
  floats (a ban expiry, install progress) and archive extraction.
- `tests/` runs the library on concrete values.
