# soccer_tool

A ground-station tool for two soccer robots: it reads JSON telemetry from a
serial port (or generates demo packets), shows each robot's latest packet,
draws the field, logs packets and replays saved logs.

- `src/` is the verified library. It holds the telemetry model (readings
  that the robots send as floats are kept as their bit patterns), the text
  handling of the serial feed and of the console (trimming, line splitting,
  joining, sorting, decimal parsing, all with the semantics of `str`), and
  the state and decisions of every panel: packet routing per robot, the
  replay's file list, loading and playhead control, the field table of the
  raw panels, the serial settings and the connect/disconnect requests, and
  the panel rectangles of the layouts.
- `app/` is the egui program around it: window drawing, floating-point
  geometry and formatting, the serial port, files, time and the random demo
  data.
- `tests/` exercises the library on concrete values.
