# system_notifier

Desktop notifications for a low battery and for full disks, as two user
services (`battery-monitor`, `diskspace-monitor`) configured by an optional
TOML file (`~/.config/system-monitor.toml`,
`~/.config/system-monitor/config.toml` or `~/.system-monitor.toml`).

## Layout

- `src/` — the library, verified with Verus:
  - `binary32.rs`: percentages as binary32 bit patterns, with their exact
    values, IEEE 754 comparisons, rounding and decimal text;
  - `rounding.rs`, `text.rs`: rounded division, powers of two, decimal digits;
  - `common.rs`: notification kinds, icons, urgencies, application names and
    the complete description of a notification;
  - `battery.rs`, `diskspace.rs`: the battery reading, the disk that holds
    a path and its usage, and the thresholds, messages and notifications of
    the two monitors;
  - `config.rs`: the settings, their defaults, and the deep merge of a
    configuration with the defaults.
- `app/` — the services: reading the battery (`battery`), the disks
  (`sysinfo`) and the configuration file (`serde`, `toml`), and showing
  notifications (`notify-rust`).
- `tests/` — tests of the library.
