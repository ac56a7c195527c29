# poc_scada_core

Deep-packet inspection of DNP3 (SCADA/ICS) traffic in legacy `.pcap`
captures, verified with Verus.

- `src/dnp3/` — DNP3 link frames (sync bytes, length, control, addresses,
  user-data blocks with their CRCs left out), transport segments and the
  application function code; `find_dnp3_messages` scans a TCP/UDP payload.
- `src/detections/` — the dangerous-function-code and
  select-before-operate detections.
- `src/pcap.rs` — captured Ethernet frames to TCP/UDP packets (headers decoded
  by `etherparse`), and the decisions of a packet stream over a capture.
- `src/lib.rs` — the analysis of a capture fed packet by packet.
- `src/report.rs`, `src/color.rs`, `src/text.rs` — the text of the
  command-line report.
- `app/` — the `poc-scada` command: argument parsing, file reading with
  `pcap-parser`, printing, and the desktop front end's serializable report.
