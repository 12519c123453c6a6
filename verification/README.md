# smolofis-panel

The control plane of the SmolOfis appliance: a small web panel that polls the
Docker engine, Gitea and Coolify and shows where the appliance is in its boot.

- `src/` is the library, verified with Verus: settings, boot phases, health
  probes, telemetry, and the values of the dashboard and of the JSON API.
  - `config`: settings from environment variables, with appliance defaults
  - `docker`: the ping of the Docker engine, step by step
  - `probe`: what the health probes say about a service
  - `metrics`: host telemetry
  - `phase`, `system`: boot phases, snapshots and the refresh cycle
  - `handlers`, `json`: what is answered to HTTP requests
  - `units`, `double`: percentages, sizes and durations; double-precision
    arithmetic in integers
  - `text`: trimming, lines, decimal numbers
- `app/` is the program around it: HTTP server, probes, `sysinfo`, signals. It
  serves `assets/app.css` and `assets/fonts/` from its working directory.
- `tests/` runs the library on concrete values.
