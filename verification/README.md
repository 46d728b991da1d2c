# can_monitor

Frame formats and message bookkeeping for a small CAN / CANopen bus monitor
whose frames travel over UDP, with the logic verified by Verus.

* `src/` — the verified library: the CAN frame and its CANopen fields, the
  byte layout of classic and extended frames, the per-identifier statistics,
  the message table, the traffic graph, the pane rules of the monitor window,
  and the frames the tools send.
* `tests/` — tests of the library on concrete frames.
* `app/` — the programs around it: the heartbeat sender, the extended-frame
  listener, and the iced monitor window with its UDP task.

Multi-byte numbers are little-endian on the wire; a classic frame takes 14
bytes, an extended-frame header 7.
