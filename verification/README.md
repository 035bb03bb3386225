# usb_platform

What USB host platforms report, made sense of, with every decision verified by Verus.

- `src/text.rs`: searching, comparing and reading numbers in the bytes of a string.
- `src/transfer.rs`: transfer errors, directions and buffers, on every platform.
- `src/macos_iokit.rs`: what IOKit status codes mean.
- `src/windows_winusb/`: Windows, over WinUSB.
  - `ids.rs`: hardware and compatible IDs, and the child node of an interface.
  - `port_number.rs`, `port_chain.rs`: the port of a device, and its place in the topology.
  - `device_path.rs`: the path by which a device or an interface is opened.
  - `enumeration.rs`: what is known of a device without opening it.
  - `transfer.rs`: one transfer and the buffer that it holds; `win32.rs`: the status codes.
- `app/`: reads the device tree and completes transfers. It asks the operating system what the
  library wants to know, through the traits in `app/system.rs`, and hands back the answers.

Beyond what `vstd` says of the standard library, the only things taken on trust are the values of
nine status codes of `windows_sys`. The seven IOKit codes in `src/macos_iokit.rs` are written out by
hand, and nothing holds them to the IOKit headers.
