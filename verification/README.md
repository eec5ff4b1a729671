# athanor

The decisions of the Athanor desktop's system services, verified with Verus, and the
programs around them.

- `src/` is the library. Every function in it has a contract that Verus proves, but for
  `Store::migrated`, whose answer is the disk's alone:
  - `backup`: snapshot names, the retention of hourly, daily and weekly snapshots, the
    paths a restore reads and writes, and the command lines of btrfs and setpriv.
  - `update`: the image update service: the policy in force and its signed scopes, the
    verification of a stored signature object, the update state a check publishes, the
    two requests, the migration onto the signed reference, the key recovery, the
    records it keeps and the command lines of bootc, skopeo, ostree and busctl.
  - `notify`: which update notices a session is shown, and which replies are believed.
  - `shelld`: the notifications daemon's store, the cleaning of what applications send,
    the pictures it accepts, who may use the bar's interface, and the tray watcher's
    registry.
  - `greeter`: who the greeter greets, the greetd conversation, and the session started.
  - `gatekeeper`: the isolation boundaries an approved application is launched in.
  - `shell`, `chooser`: the directories the shell and the layout chooser may write to.
  - `chars`, `paths`, `i18n`, `journal`: text, paths and messages shared by the above.
- `tests/` runs the library on concrete values.
- `app/` holds the programs: their command lines, the disk, the processes they run and
  the buses they talk on. It calls the library for the decisions on what they read. The
  graphical programs (the greeter's window, the layout chooser and translator, the
  settings pages) are not part of it: they are GTK code around the layout crate.

Outside crates are called from the library through wrappers whose contracts say what
the crates' documentation promises: chrono for times, sha2, hex, base64 and p256 for the
signature objects, zvariant and zbus_names for bus names and object paths.
