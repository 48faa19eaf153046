# avisaver

The logic of AviSaver, a desktop tool that listens for VRChat's OSC traffic and
answers OSCQuery discovery requests, written in Verus with its behaviour stated
in contracts and proved.

- `src/`: the verified library
  - `core_info`: the application's names
  - `text`: decimal and hexadecimal notation, string prefixes
  - `format`: the OSCQuery host description and address tree
  - `nodes`: splitting OSC addresses, growing and searching the address tree
  - `queryserver`: the answer to an OSCQuery HTTP request
  - `osc`: the advertised service name and decoding received datagrams
  - `app`, `root`, `settings_page`: the application's lifecycle and windows
  - `settings`: the stored settings and where VRChat keeps its pictures
- `tests/`: tests of the library on concrete values
- `app/`: the program around it: windows (iced), the UDP socket, the HTTP
  server (hyper), the mDNS advertisement (searchlight), JSON and TOML.

Two collections differ in form from a plain Rust program: a node's children
and the host's extensions are lists of `(name, value)` pairs with distinct
names (a `HashMap` keyed by `String` leaves nothing provable), and the running
startup and shutdown tasks are small set types of their own (`enumset` needs a
derive that the library cannot use).
