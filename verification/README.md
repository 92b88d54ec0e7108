# usbcan-2eu

Verified driver logic for the ZLG USBCAN-E-U and USBCAN-2E-U CAN interfaces on macOS,
and the command-line tool `usbcan2eu` around it.

This is an independent, unofficial project. It is not affiliated with, authorized by, or
supported by the hardware vendor.

## Layout

- `src/` is the library. It performs no I/O: it says which bytes to move over which pipe,
  and what the bytes that come back mean. Every function states what it does in
  `requires` and `ensures` clauses that [Verus](https://github.com/verus-lang/verus)
  proves. Properties that span functions are public proof functions named `law_...`.
- `tests/` runs the library on concrete values.
- `app/` is ordinary Rust around the library: the IOUSBHost transport, the
  pseudo-terminal of the SLCAN bridge, the command line.

## What is trusted

Three contracts are believed rather than proved:

- `String::push` of the standard library (`src/text.rs`),
- `StandardId::new` and `ExtendedId::new` of the `embedded-can` crate
  (`src/embedded_can_impl.rs`).

## Safety

The tool transmits on a real CAN bus. Do not point it at a vehicle, battery system, or
any other equipment you are not prepared to disturb.
