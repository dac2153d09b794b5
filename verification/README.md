# embedded2020

Host tools and shared crates for embedded Rust development on Cortex-M targets, as a Verus
library whose behaviour is stated in contracts and proved.

- `src/` is the verified library:
  - `binfmt`, `binfmt_parser`: the compact binary log format the target writes and its decoder;
  - `cmsis_dap`: the CMSIS-DAP protocol over USB-HID (reports, answers, the AHB-AP memory
    accesses, the SWD setup and the Cortex-M debug operations as state machines);
  - `semidap`: the semihosting debugger's decisions (the ELF image it loads, the log channels it
    drains, the system calls, the exception reports, the stack unwinder, the prompt);
  - `cm`, `regen`, `regen_ufmt`: the register API of the Cortex-M core peripherals and the
    generator that derives such APIs from SVD descriptions;
  - `dll`, `spsc`, `mutex`, `task`, `tasks`: the `async` building blocks of the firmware;
  - `usb2`, `usbd`: USB descriptors.
- `tests/` runs the library on concrete values.
- `app/` is the `semidap` program: USB-HID, file and terminal I/O around the library.
