# tapo_rest

A REST gateway for Tapo smart-home devices. It finds devices on the LAN, keeps a cache of them,
connects to the ones that its configuration names and serves them over HTTP.

- `src/` is the library, verified with Verus: the configuration and its CORS origins (`config`,
  `text`, `ip`), the discovery cache (`discovery`), the devices and how a connection is established
  (`devices`), loading (`loader`), the shared state (`state`), routes and answers (`server`), the
  start of the program (`startup`) and the set-up of logging and tracing (`telemetry`).
- `app/` is the program around it: the command line, files, JSON, the network and the HTTP server.
  It carries out the steps that the library decides on. Sessions and device actions are plugged in
  through `Plugins`; without them, every protected route refuses.
- `tests/` runs the library on concrete values.
