# asgr

A small service that keeps a list of shell orders in a Beebotte channel,
listens for events on an MQTT topic, and runs on this host the orders that an
event names.

- `src/` is the verified library: the data types, the selection of the orders
  an event runs, the choice of the record that holds the orders, the updates of
  the order list, the JSON framing of what is sent, the splitting of command
  lines into words, and the decisions of the MQTT receiving loop.
  Laws about these stand beside them as proof functions named `law_*`.
- `app/` is the program around it: HTTP endpoints, REST and MQTT clients,
  process spawning, threads, environment loading and serde conversions.
- `tests/` runs the library on concrete values.
