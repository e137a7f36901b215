# xrayctl

A manager for Xray subscriptions: it downloads a subscription, lists and
selects its profiles, turns the selected profile into an Xray configuration
with a local SOCKS5 endpoint (`127.0.0.1:9999`) and a TUN interface
(`xray0`, `10.10.0.1/30`), and starts, stops and reports on Xray.

- `src/` is the library, verified with Verus: the JSON model of profiles
  (`json`), reading the proxy server out of a profile (`subscription`),
  listing and selecting profiles (`profiles`), preparing the Xray
  configuration, the TUN route commands and the PID file (`xray`), the
  request headers and status check (`subscription_client`), the file
  layout (`config`), the command line (`cli`), ping bookkeeping (`ping`) and
  the text operations they rest on (`text`).
- `app/` is the program around it: command-line parsing, files, HTTP,
  processes and terminal output.
- `tests/` runs the library on concrete inputs.
