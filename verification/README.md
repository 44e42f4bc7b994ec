# usbhs_pipe

Queue state machine of the zero-copy DMA pipes of a USB high-speed device controller,
verified with Verus.

The library decides and does not touch the hardware: each call changes the queue state
and appends the register accesses it wants to a log (`HwOp`), which the caller carries
out from front to back. Register words are computed with the field accessors of
`ch32-metapac`.

- `src/ring.rs`, `tx.rs`, `rx.rs`: ring of slot numbers, IN queue, OUT queue
- `src/pipe.rs`: registry of all pipes, interrupt hooks, buffer handles, counters
- `src/endpoint.rs`: packet transfer on one endpoint, over a queue or a single buffer
- `src/bufmap.rs`: probe for the double-buffer mode
- `src/hw.rs`, `pac.rs`, `address.rs`: hardware actions, register fields, addresses
- `src/regs.rs`, `slots.rs`, `laws*.rs`: register model and the proved laws
- `app/`: registers, memory, interrupts and futures around the library
