# Shao (哨兵)

A lightweight Linux server sentinel: hardware telemetry, network traffic
separation (LAN, WLAN, VPN), Docker and Immich status, power figures and a
web dashboard.

## Layout

- `src/` — the library, written in Verus and proved against its contracts:
  - `text` — characters, white space, trimming, decimal numbers, number parsing;
  - `config` — the configuration model and its defaults;
  - `sensors::network` — `/proc/net/dev` parsing, interface classification,
    per-interface and per-category traffic, human-readable byte counts;
  - `sensors::{disk, cpu, power, thermals}` — disk space, average frequency,
    the wrapping RAPL energy counter, fan discovery; `sensors` — host summary
    and uptime text;
  - `docker`, `dockge`, `immich` — container listing, stack counts, Immich
    statistics;
  - `api` — history windows, client address and route detection, power
    requests, static asset selection;
  - `collector`, `db` — the collection schedule and history windows;
  - `system` — host power actions and the commands that carry them out.
- `app/` — the program around the library: HTTP server, sensors and files,
  SQLite, Docker socket, HTTP clients, and the floating-point figures
  (speeds, percentages, watts, costs).
- `tests/` — tests of the library.
