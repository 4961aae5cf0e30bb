# qualisys_rust_sdk

A client library for the Qualisys Track Manager (QTM) real-time protocol,
written in Verus: the protocol logic is executable Rust whose behaviour is
stated in `requires`/`ensures` contracts and proved.

## Layout

- `src/` — the verified library.
  - `wire`, `records`, `components`, `decode`: reading framed packets and
    the component payloads of data packets.
  - `encode`, `roundtrip`: writing packets, and the proofs that what is
    written reads back and that a data packet that reads re-encodes to the
    same bytes.
  - `protocol`: packet, event and component kinds, and the commands a
    client sends.
  - `bridge`: assembling frames whose components arrive in several UDP
    packets.
  - `xml`, `parameters`: the mocap subset of `GetParameters` XML (3D
    labels and bones, 6D bodies, skeletons), read from the nodes of a
    document that `roxmltree` parses.
  - `session`: what a client makes of the packets QTM sends back, and the
    steps of a frame stream that stops after a given number of frames.
  - `simulation`: what the simulator answers, and the frames and settings
    it serves.
  - `cli`: component and parameter lists, stream rates, protocol versions
    and component summaries of the diagnostic command line.
  - `text`, `numbers`: characters, trimming, decimal numbers.
- `tests/` — tests of the library on concrete values.
- `app/` — sockets, threads, timing and the two command-line programs
  (`qualisys-rt`, `qualisys-sim`) around the library.

Real-valued data stays as `f32` bit patterns (packets) or as the text of an
`f32` (settings XML); converting them to numbers is left to callers.
