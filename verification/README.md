# ibsim

Verified values for the public datagram protocol of ibsim, the InfiniBand
fabric simulator. The simulator and its clients send C records directly over
datagram sockets, so the protocol is native-endian and native-layout; this
crate states that layout as byte sequences and proves its encoders and
decoders against it.

## Layout

- `src/sys.rs`: the records of the public header (`sim_vendor`, `sim_port`,
  `sim_request`, `sim_ctl`, `sim_client_info`, `name_t`) and its constants.
- `src/native.rs`: integers in the machine's byte order.
- `src/wire.rs`: the byte layout of each record (`WirePod`), the generic
  `encode_raw` / `decode_raw` steps, and the `WireMessage` trait with its laws.
  The layout follows the target's C ABI: a `u64` after an odd number of `u32`
  fields is padded to its alignment, so `VendorInfo` takes 24 bytes and a MAD
  request 288 on 64-bit Linux, and 20 and 284 where `u64` is 4-aligned.
- `src/info.rs`, `src/mad.rs`, `src/control.rs`, `src/client.rs`: the
  validated values `VendorInfo`, `PortInfo`, `MadRequest`, `ControlType`,
  `ControlMessage` and `ClientInfo`.
- `src/error.rs`: `Error` and its messages.
- `app/lib.rs`: a copy of `Error` that implements `Display` and
  `std::error::Error`.

Each `WireMessage` type proves that decoding its encoding gives the value
back, that buffers of the wrong size are refused, and that whatever decodes
satisfies the type's invariant (payload limits, NUL-free node IDs).
