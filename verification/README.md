# camera_controls

Settings for V4L2 webcams: brightness, exposure, white balance and the other
controls a camera offers, its pixel formats, and a live preview, with the
values of each camera saved in a profile and written back when it is opened
again.

`src/` is the verified library:

- `text` — decimal rendering and parsing of integers, names from fixed-size
  NUL-terminated fields;
- `camera` — camera identities, the control list built from the driver's
  answers, snapshots of control values, the order in which saved values are
  written back, format options;
- `config` — profiles keyed by camera identity, and the saved form of
  control values;
- `preview` — frame decoding and the decisions of the capture thread;
- `session` — the window's state machine: each user message and each
  outcome of a device, disk or preview operation gives the next state and
  the next operation to perform.

`app/` is the program around it: the COSMIC window, the V4L2 ioctls, udev,
the config file and the preview thread.
