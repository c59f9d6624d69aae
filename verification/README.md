# elevator_lib

A simulator of a building's elevators: passengers appear on the floors
according to hourly rates and commuting habits, wait in hall queues, and are
carried by cabins that a controller dispatches.

The library under `src/` is verified with Verus. Every public function has
a contract over mathematical views of the data (`Seq`, `nat`, views of the
cabins, queues, generator and system), and `src/laws.rs` holds properties
that span functions.

Units inside the library are integers: lengths in millimetres, masses in
grams, floor areas in square centimetres, times in milliseconds, and rates
and probabilities in millionths.

- `human`, `entity`: people, groups of people, and passengers as either.
- `queue`, `direction`: hall queues and the calls they make.
- `elevator`, `boarding`: cabins, their load bookkeeping, and boarding.
- `simple_controller`, `nearest_car`: the dispatching controllers.
- `population`, `generator`, `random`: population tables and passenger
  generation; `random` is the one place that draws random numbers.
- `system`: the whole simulation, one time step at a time.
- `state_space`: what the learning controller observes.
- `server`, `text`: the simulation server's state and request handling.
- `evolution`: the plan of each generation in training the learning
  controller.

`app/` is the program around the library: command line, parameter and
table files, the cabins' motion, the learning controller (which computes in
floating point) and the TCP side of the server.
