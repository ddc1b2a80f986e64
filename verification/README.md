# lx_monitor

A Linux hardware monitor (CPU, GPU, temperatures, processes, autostart
programs). The crate is split in two:

- `src/` is a library verified with Verus. It reads the kernel's text
  interfaces (`/proc/stat`, `/proc/<pid>/statm`, cpufreq and sysfs files,
  `os-release`, desktop entry files, `lspci -nn` output), computes CPU load
  ticks, orders and names the temperature sensors, keeps the recent readings
  of each sensor, and formats what the window shows. Each public function
  states its result over specification functions on `Seq<char>` and plain
  integers.
  - `text`: lines, words, trimming, searching, as `str` does them.
  - `numbers`: reading and writing unsigned integers.
  - `cpu`, `memory`, `hardware`, `autostart`, `sensors`, `display`,
    `translations`: the monitor's own logic.
- `app/` is the program: the egui window, file and process I/O, `sysinfo`,
  `amdgpu-sysfs`, `libc`, and the floating-point arithmetic.
- `tests/` runs the library on concrete inputs.
