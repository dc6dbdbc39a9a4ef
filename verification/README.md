# pike

A deployment server for CrowdStrike Falcon sensors: hosts fetch a one-line
install script, call back with their platform, get the matching installer
(from local files or from the Falcon API through a disk cache) and report
the result.

- `src/` is the library, verified with Verus: configuration resolution,
  sensor matching, script rendering, the decisions behind the five HTTP
  routes, the sensor-list cache, cache eviction, the systemd units, the
  installer's checks, the desktop form's checks and release-version
  comparison. Laws that span several functions are public proof
  functions named `law_*`.
- `app/` is the program around it: command-line parsing, the axum server,
  the HTTP client of the API, file and process operations, and the desktop
  window.
- `tests/` exercises the library on concrete values.
