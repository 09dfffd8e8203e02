# rustberry

Plant watering and sensor tools for a Raspberry Pi, with their logic verified
by Verus.

- `src/` is the verified library: the DHT11 frame decoder and reading state
  machine (`dht11`), the HD44780 display controller (`lcd`), soil humidity and
  watering decisions (`sensors`, `demo`), the dashboard chart data and request
  period (`dashboard`), the dashboard page state (`frontend`) and decimal text
  (`decimal`).
- `app/` holds the programs around it: GPIO and SPI access, the watering job,
  the HTTP server with its database queries, and the command-line demo.
- `tests/` exercises the library on concrete values.
