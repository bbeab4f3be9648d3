# vm

Launches a QEMU virtual machine that imitates a bare-metal server described by
a metadata document (drives, firmware features, network interfaces), with the
machine's monitor and serial consoles presented on the terminal.

## Layout

- `src/` is the verified library. It parses the console driver's name, turns
  the metadata into QEMU arguments (metadata share, tap network devices, disk
  drives, UEFI flash), plans the disk images and firmware copies, and decides
  how the character devices that QEMU reports are shown: as lines to attach
  to by hand, or as windows of a tmux session. Every function states its
  result exactly; the lemmas in `src/qemu.rs`, `src/tty_handler/tmux.rs`,
  `src/cli.rs` and `src/text.rs` state properties across calls.
  - `cli`: the driver names and the metadata path check.
  - `meta`: the metadata types.
  - `qemu`: the command line, the drive plan, the network and firmware.
  - `tty_handler`: the console drivers (`stdout`, `manual`, `tmux`).
  - `text`: decimal numbers, trimming, and the sequence helpers of the specs.
- `app/` is the program: command-line parsing, reading the metadata with
  serde, creating files and disk images, running QEMU, talking QMP, and
  driving tmux.
- `tests/` runs the library on concrete values.

The program embeds two tap scripts, `network-up.sh` and `network-down.sh`,
beside `app/main.rs`; they are not part of this tree.
