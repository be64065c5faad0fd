# alert_distributor

A service that reads alert events from Kafka and fans them out in real time:
to the websocket clients allowed to see the alert's unit, and as SNS push
notifications to those users' devices.

- `src/` is the library, verified with Verus: settings parsing, the
  permission snapshot and device cache, the websocket connection registry and
  its indexes, the alert fan-out, the SNS target resolution, payload and retry
  decisions, the decisions of the websocket endpoint, and the handling of
  device updates.
- `app/` is the program around it: environment, logging, PostgreSQL, Kafka,
  AWS SNS, the axum websocket server and the async tasks.
- `tests/` runs the library on concrete values.
