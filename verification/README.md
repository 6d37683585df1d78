# simx

A simulated exchange for testing order management systems. Gateways listen on TCP ports and
speak the binary interfaces of the Shenzhen exchange (unified gateway) and of the Shanghai
exchange (auction platform). A client logs on and sends orders; what comes back (confirmations,
executions, rejections, answers to cancel requests) is up to the strategy that is configured for
the platform, and can also be sent by hand.

The library is written in Verus: every function states what it returns or changes, and the
proofs are checked with it.

## Layout

- `src/wire.rs`, `src/text.rs`, `src/clock.rs`, `src/layout.rs`: bytes, text, time, and message
  layouts as data.
- `src/config.rs`, `src/stats.rs`, `src/orderbook.rs`, `src/capture.rs`, `src/report.rs`: the
  configuration, counters and numbers, orders, captured messages, planned reports.
- `src/fills.rs`, `src/rng.rs`: how an order is cut into executions.
- `src/sz/`, `src/shjj/`: the two interfaces. `protocol` holds the messages, `strategy` what is
  planned for an order, `session` what a message on a connection leads to, `log` what is said of
  it, `desk` the way of a message through the two, `manual` the reports that are sent by hand,
  `filings` what is filed in Shenzhen besides orders.
- `src/step.rs`, `src/note.rs`: what a connection is to do next, and a line of the running log.
- `src/engine.rs`, `src/restart.rs`, `src/api.rs`: gateways that are configured and running, how
  those that ran before are started again, and the commands of the user interface.
- `src/event.rs`, `src/oplog.rs`: what observers and the log of operations are told.
- `src/update.rs`, `src/server.rs`: versions, installers, and what is said of updates.
- `app/`: sockets, files, JSON and the WebSocket around the library. `main.rs` is the server and
  the update server, `desktop.rs` the program with a window.

## Numbers

Prices and quantities are whole numbers throughout: on the Shenzhen interface 10,000 make a yuan
and 100 a share, on the Shanghai interface 100,000 and 1,000. A configured price tick is in
hundred-thousandths of a yuan, a configured quantity in thousandths of a share.

## What is taken on trust

The random choice (`rand`), the local time (`chrono`), and a few functions of the standard
library on text. Each stands behind one declaration whose comment names the function and says
what is assumed of it.
