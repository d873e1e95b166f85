# pawflash

A toolkit for MediaTek Android devices: force fastboot mode through the
preloader serial port, flash images, wipe and format the data partitions,
disable verified boot and install a Generic System Image.

The library under `src/` holds the decisions and data handling, each with a
Verus contract; `app/` is the command-line program that performs the device,
file and console work those decisions ask for.

- `text`, `num` — character-level string helpers and integer parsing.
- `format`, `mkfs` — fs-options, filesystem types, getvar numbers, and the
  command lines of the filesystem generators.
- `vars` — the device's fastboot variables as a map.
- `sparse` — Android sparse image headers, chunk building, planning, and
  splitting an image into downloads.
- `wipe` — the per-partition wipe of `format-data` as a state machine.
- `format_run` — a whole `format-data` run: snapshot cancel, control-block
  clearing, tools, then each partition's wipe.
- `gsi`, `gsi_flow` — GSI events, stage order, and the GSI install workflow
  as a state machine.
- `executor` — reboot targets, serial checks, download limits, raw flashing.
- `detect`, `handshake` — fastboot detection, preloader ports, permission
  recovery and the force-fastboot handshake.
- `scatter` — scatter text decoding, digest, XML detection, image kinds.
- `cli` — the command-line vocabulary and the `flash` subcommand's choices.
