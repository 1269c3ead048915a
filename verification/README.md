# servo_sim

A master/slave servo-drive simulation in two programs: a controller that
simulates the axes and serves clients over TCP (one JSON value per line), and
a monitoring client that plots the telemetry and edits the drive parameters.

- `src/` is the verified library. Its types are generic over the scalar `F`
  of the physical quantities, so that the decision logic is proved without
  reference to floating point:
  - `protocol`: `ServoParams`, `SimulationState`, `Command`, `Message`;
  - `controller`: how the controller takes in a client's command;
  - `roster`: dropping the clients whose last write failed;
  - `history`: the bounded, aligned plot history of the client;
  - `client`: the client's handling of link reports, telemetry and
    acknowledgements, and the command each control of its window sends.
- `app/` holds `main`, the threads, the sockets, the windows, the JSON form
  of the protocol and the floating-point physics of the simulation.
- `tests/` exercises the library with `f64` as the scalar.
