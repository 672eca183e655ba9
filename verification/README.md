# mihomo_tray

A system-tray controller for the [mihomo](https://github.com/MetaCubeX/mihomo) proxy core:
it installs and runs the core, switches the system proxy and TUN mode, lists proxy groups
and profiles in the tray menu, and (on macOS) manages a privileged helper service that runs
the core as root for TUN.

Layout:

- `src/` — the verified library (Verus). The menu model, the tray's state machine for
  switching the system proxy and TUN, the core's local HTTP API (requests and response
  parsing), the helper service's protocol, profile and settings handling, the choice and
  unpacking of release assets, the OS command texts (`networksetup`, AppleScript), and the
  locale choice. Calls into other crates (zip, flate2, image, serde_json, std paths) sit
  behind small trusted wrappers whose contracts are documented where they are declared.
- `tests/` — tests of the library's public functions.
- `app/` — the program around the library: the winit event loop, the tray icon and
  dialogs, sockets, processes, files, downloads and the helper programs (selected by the
  executable's name: `mihomo-tray-service`, `mihomo-tray-service-install`,
  `mihomo-tray-service-uninstall`).

The application expects `menu_icon@2x.png`, `default.yaml` and (for the helper installer)
`service.launchd.plist` next to its executable.
