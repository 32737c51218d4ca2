# bypax_platform

The platform integration of the BypaxDPI desktop application, verified with
Verus: how the system proxy is pointed at the local DPI-bypass proxy and put
back afterwards, on Linux (GNOME settings through `gsettings`) and on Windows
(the registry, WinHTTP and the firewall), and what is reported to the user.

- `src/text.rs`: decimal rendering, Unicode whitespace trimming, unsigned
  integer parsing and joining, each proved against a definition over
  character sequences.
- `src/platform/mod.rs`: the setup result, and the behaviour on platforms
  without an integration.
- `src/platform/linux.rs`: the GNOME integration as a state machine; every
  `gsettings` run and every access to the saved settings on disk is an action
  it hands out and an event it takes back. The proofs cover what a setup
  writes, that a clear puts back what the setup found, that a setup failing
  at any step of its plan writes back every saved setting, that saved
  settings are never replaced (a second setup keeps the first one's, and a
  new run keeps what a run that ended without clearing left on disk), and
  that every setup and clear ends.
- `src/platform/windows.rs`: the Windows integration in the same style, with
  the commands it runs; its proofs cover the same ground.
- `app/`: the program around the library: it runs the processes, reads and
  writes the registry and the files, and loops over the actions.
