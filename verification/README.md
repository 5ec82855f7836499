# ringrtc_devices

The part of a calling library that deals with a machine's audio devices and
network interfaces, verified with Verus.

* `src/` is the library. Every function states what it returns in a contract that
  Verus checks. The public proof functions state what holds of the library as a
  whole, such as that redacting a text twice changes nothing more, or that an
  interface's first global IPv6 address is the one that is selected.
* `tests/` runs it on concrete values.
* `app/` connects it to cubeb, to the operating system and to the call engine:
  it reads devices and addresses and hands them to the library as plain values.

What depends on the platform or on how a program was compiled is taken as a
value: a `Platform` for the numbering of devices, a `BuildProfile` for the log.

Regular expressions are those of the `regex-automata` crate. `src/pattern.rs`
says what the library takes for granted about them; nothing else in `src/` is
taken for granted. libcubeb itself is linked by the program that uses `app/`,
which is why the cubeb crates are named with `gecko-in-tree`.
