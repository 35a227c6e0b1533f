# x1-mk1-usb2midi

Turns a Traktor Kontrol X1 Mk1 into a MIDI controller.

- `src/` is the verified library:
  - `utils`: bit decoding of report bytes, knob scaling, serial-number form;
  - `conf`: the board configuration;
  - `x1_board`: the board of controls built from the configuration;
  - `x1_process`: the controller state machine (state reports in, MIDI
    messages and LED frames out; MIDI LED messages in);
  - `kontrol_x1mk1`: the panel view of a controller and its text picture;
  - `usb`: endpoints and the choice of a readable one.
- `app/` is the program around it: USB hotplug and transfers, MIDI ports,
  YAML loading and the macOS status bar.
- `tests/` runs the library on concrete reports.
