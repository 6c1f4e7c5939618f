# solace_monitor

Turns Solace SEMPv2 monitoring responses into InfluxDB points.

- `src/` is the verified library (Verus). A response's data is held as a
  `JsonValue`, and JSON text is parsed into one through serde_json (`json`); `fields` flattens a JSON object into integer fields (number
  members by name, members of object members as `outer_inner`), `tags` tags
  and timestamps points, and `metric`, `metrics`, `queue` and `client_conn`
  hold the per-response metric logic. `influx` declares the `influx_db_client`
  point and the trusted wrappers around its methods; `clock` reads the time.
- `app/` is the command-line monitor: argument handling, configuration,
  fetching over SEMP, serializing responses and writing the points.
- `tests/` exercises the library on concrete documents.
