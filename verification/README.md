# deltax2

Control logic for the Delta X 2 delta-arm seeding robot, verified with Verus.

- `src/` is the verified library:
  - `control.rs`: the pause request and the job-id abort watermark of a
    seeding job;
  - `text.rs`: line and word splitting of firmware replies, the `ok`
    acknowledgement, the `YesDelta` identity answer and `X:… Y:… Z:…`
    position reports;
  - `gcode.rs`: the axes and the commands written to the firmware;
  - `link.rs`: the exchanges with the firmware (jog, homing, connection),
    each a state machine that asks the worker for the I/O to perform and
    keeps the desynchronized flag;
  - `link_laws.rs`: properties of the exchanges (refusals, desynchronization
    rules, wire sequences);
  - `seeding.rs`: the seeding loop over the pot grid, with pause and abort;
  - `ports.rs`: the serial-port list offered to the operator.
- `app/` is the program: configuration (`config.toml`), the serial
  transport, the clock, the tracked position and software limits in
  millimetres, the worker thread that performs the exchanges, and a line
  console for the operator commands.
- `tests/` drives the library the way the worker does, over a scripted
  transport and a virtual clock.
