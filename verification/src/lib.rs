//! Motion-delta protocol for mirroring pointer movement between machines:
//! a fixed-size binary record codec, the sender-side delta sampling logic,
//! and the receiver-side smoothing state machine.

pub mod codec;
pub mod sender;
pub mod smoother;
