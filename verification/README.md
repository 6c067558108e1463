# one20proof

The logic of the 120Proof music rig, verified with Verus.

* `src/` is the verified library: the monitor's output filters and file
  name rules (`filter_rules`, `monitor`, `output_filters`), the LPX pad
  layouts, colour messages and control pad state machines (`lpx_drums`,
  `lpx_manager`, `lpx_control`, `pad_launcher`, `pad_reporter`,
  `lpx_messages`, `note_adapter`), MIDI port choice (`midi_ports`), the
  pedal drivers' choices and pipe files (`midi_pedal`, `aseq_pedal`,
  `pipes`, `key_scan`), the text input dialogue (`dialogue`) and text
  helpers (`text`).
* `app/` runs the programmes: MIDI, Jack, files, processes and the
  terminal, each a sub-command of one binary.
* `tests/` exercises the library on concrete values.
