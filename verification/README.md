# st_conductor

A JACK timebase master that conducts a fixed time signature and tempo.

- `src/` is the verified library:
  - `rolling`: one process cycle of a rolling transport (bar/beat/tick
    advancement, end frame, beat crossing) and laws over runs of cycles;
  - `timebase`: transport states, their labels, and what the timebase
    callback does in each state;
  - `timekeeper`: the conductor's meter and tempo, beat-edge detection, and
    the forwarder that passes beat boundaries on to the sync controller;
  - `session`: the persisted session values.
- `app/` is the program around it: command line, JACK registration and
  callbacks, the floating-point tempo map, the YAML session file and the
  egui window.
- `tests/` exercises the library on concrete values.
