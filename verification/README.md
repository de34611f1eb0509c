# ledger_transport_ble

A transport for APDU commands to a Ledger Nano X over Bluetooth Low Energy, with its protocol
verified in Verus.

- `src/` is the protocol, verified: packets and their bytes, the cutting of messages into packets
  and their reassembly, the exchange of a command for its answer, the search for Ledgers and the
  opening of links to them. It does no input or output. What takes several steps is a value that
  names the next action and is told the event that came of it.
- `app/` performs those actions on the Bluetooth stack.
- `tests/` runs the protocol against devices that are played by the test.

`dbus` is named as a dependency only to build the D-Bus library along with the Bluetooth stack.
