//! What stands between a NetFlow buffer and the capture file: the synthetic frame.

pub mod udp;
