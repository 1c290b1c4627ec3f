# lapctl

Laptop hardware control for Linux: GPU mode switching (integrated, hybrid,
NVIDIA), battery charge limits, power and cooling profiles, display refresh
rates on wlroots compositors, touchpad toggling, sleep inhibition, and a
D-Bus daemon (`lapctld`) that performs the privileged operations.

## Layout

- `src/` is the library, verified with Verus. It holds the decisions and the
  text formats of the tool: which files each GPU mode writes and what they
  contain, the order of the steps of a switch, how the mode is read back
  from the files present, the parsers for `lspci`, `xrandr`, `systemctl`,
  `loginctl` and `nvidia-smi` output, the requests exchanged with the
  daemon, and the state that the Wayland output-management events build.
  Contracts state each result over `Seq`-based models; proof functions state
  the laws that tie functions together (a request sent to the daemon is the
  one it runs, a switch reads back as the mode it switched to, the mode list
  is sorted, and so on).
- `app/` is the program around it: command line parsing, processes, sysfs
  reads and writes, D-Bus and Wayland connections. It asks the library what
  to do and prints or performs the result.
- `tests/` exercises the library on concrete inputs.
