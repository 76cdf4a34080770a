# modit

The brain of a set of game props: button boards with an LED, and coin
acceptors, talking Bluetooth LE to a host that runs a game ("scenario") over
them.

- `src/` is the verified core, checked by Verus: the edge latch that turns a
  bouncing pin into presses and coins, the wire protocol's types, module
  definitions and their validation, the `--modules` list, the runtime's event
  filters and capability checks, the simulated bench, the BLE transport's
  decisions, what a line typed at the simulator means, what the coin and
  button boards decide (debounce, bursts, what to notify), and each game as a
  state machine (`scenarios/`) whose every step is specified, with laws over
  whole runs.
- `app/` is the program around it: argument handling, logging, the tokio
  runtime that performs what a game asks for (sleeping, waiting on the link,
  drawing random numbers, reading the clock), the simulated link driven from
  the keyboard, the btleplug transport, and postcard encoding.
- `tests/` exercises the library, including every game driven by hand over a
  simulated bench.
