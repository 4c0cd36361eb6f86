# mujina-miner

The core of a Bitcoin miner, written and verified with Verus. It decides what a
miner does: how jobs are split among hash threads, how chips are addressed,
configured and ramped up, which nonces are shares, how boards are powered, cooled
and shut down, and what a display and an API are told. The functions in `src/`
carry contracts that Verus proves, but for the few that are named below as
trusted.

## Layout

- `src/` is the verified library.
  - `pow`, `types`, `job`: targets, work, rates, and jobs with their merkle roots.
  - `asic`: hash threads and the BM13xx chips: PLL settings, register sequences,
    chain bring-up, voltage and frequency ramps, nonce checks.
  - `scheduler`, `slots`: sources, threads and tasks, and the routing of shares.
  - `board`: EmberOne, S19j Pro behind a Bitcrane bridge, and S19j Pro on an
    Amlogic control board.
  - `backplane`, `transport`: boards that come and go.
  - `display`: the line protocol of the GT Touch display.
  - `api`, `config`, `daemon`, `text`: what is shown, configured and started.
  - `precision`: figures as floating point has them, for what a display shows.
  - `alarm`: warnings that wait before they are given.
- `app/` is the runtime around it: tasks, channels, serial ports, the HTTP server
  and the configuration file. Drivers for buses and chips are passed in.
- `tests/` runs the library on concrete values.

## Units

Quantities are integers: kilohertz, microvolts, millionths of a degree Celsius,
milliwatts, hashes per second. The runtime converts to and from the floating-point
figures of drivers and files.

## What is trusted

Verus takes a few things as given, each marked in the source: the functions of the
`bitcoin` crate that hash headers and convert between targets and work, the slot
map that holds the scheduler's records, and `String::push`.
