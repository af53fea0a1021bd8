//! Decoder for the binary telemetry stream of an inertial-navigation/GNSS
//! sensor: frame resynchronization, two-region XOR checksum verification,
//! double-buffered frame swap, latched sub-state extraction and output-rate
//! debouncing, together with the fixed-point frame fields that feed the
//! local-tangent-plane transform.

mod frame;
mod ins570;
mod laws;
mod ports;
mod rtk;

pub use frame::{Frame, FrameBuffer, LEN};
pub use ins570::{Attitude, Enu, FrameValue, Ins570, Solution, SolutionState, NEG, WGS84, XYZ};
pub use ports::{list, list_ports};
pub use rtk::{keys, Poll, RTK};
