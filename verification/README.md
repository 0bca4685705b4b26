# ios-runner-core

Build and run Xcode projects (iOS, iPadOS, macOS) from the Zed editor:
pick a scheme and a destination, build with `xcodebuild`, run on a
simulator, a device or the Mac, and stream the app's log.

The decisions of the tool are a library verified with Verus; the program
around it only talks to the machine.

- `src/` — the verified library. Every public function states what it
  returns in its contract, over spec functions on `Seq<char>`, `Seq` and
  plain values. The modules follow the tool's concerns:
  - `text`, `paths`: the string and path operations everything else uses.
  - `destination`, `simulator`, `platform`, `xcodebuild`, `build_settings`:
    destinations and their validation and repair, the `simctl` and
    `-showdestinations` listings, the `xcodebuild` arguments, the default
    simulator, and the launch settings.
  - `config`, `global_store`, `locale`, `bootstrap`: the saved per-project
    settings, the global store in `~/.config/ios-runner/config.toml`, and
    the message language.
  - `detect`, `setup`, `run`, `diagnostics`, `prompt`, `terminal_ui`,
    `doctor`: project detection, the configuration flows, the run plans,
    build failure hints, menus and terminal output.
  - `tasks`, `global_tasks`, `keymap`, `uninstall`, `mcp`, `extension`: Zed
    tasks and key bindings, the uninstall plan, the MCP server's answers and
    the extension's choice of CLI binary.
- `app/` — the `ios-runner` command line program: argument parsing, files,
  processes, the file lock on the global store, JSON and TOML, and the Zed
  extension glue.
- `tests/` — tests of the library on concrete values.

The laws the library promises stand in `src/` as public proof functions
named `law_…`, next to the functions they speak of.
