# usb_passthrough

Shares USB devices over TCP with the USB/IP protocol: a server that offers
the local USB devices, and a client that lists and imports them (and, on
Windows, plugs them into the usbipd-win VHCI driver).

- `src/` — the verified library (Verus):
  - `bytes.rs`: big/little-endian field encodings;
  - `text.rs`: UTF-8 decoding of fixed fields, NUL trimming, decimal text;
  - `protocol.rs`: constants, the 312-byte device record, OP headers;
  - `server.rs`: device records for enumerated devices, device-list and
    import replies, request dispatch, URB planning and completion replies;
  - `client.rs`: import requests, reply checks, reading device records,
    VHCI driver inputs.
- `app/` — the programs: USB access (rusb), sockets (tokio / std), logging.
  The program acts by the name it runs under (`usbip-client`,
  `usbip-probe`, `vhci-diag`) or by a first argument `client`, `probe`,
  `vhci-diag` or `server`; otherwise it runs the server on port 3240.
- `tests/` — tests of the library on concrete values.
