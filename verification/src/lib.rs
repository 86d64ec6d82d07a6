//! Portable radio engine core: sample-clocked timers, signaling-mode and
//! transmitter state machines, receive qualification, fixed-point detector
//! cores, and the DCS/CTCSS code logic, each with a verified contract.

pub mod center_slicer;
pub mod config_parse;
pub mod ctcss_receive;
pub mod ctcss_render_state;
pub mod ctcss_transmit;
pub mod dcs_code;
pub mod dcs_receive;
pub mod dcs_transmit;
pub mod dcs_turnoff;
pub mod deemphasis_integrator;
pub mod delay_line;
pub mod envelope_meter;
pub mod fir;
pub mod fixed_point;
pub mod receive_profiles;
pub mod parrot;
pub mod receive_frontend;
pub mod receive_partition;
pub mod receive_path;
pub mod receive_qualification;
pub mod rx_blanking;
pub mod rx_cpu_saver;
pub mod session;
pub mod session_flow;
pub mod signal_mode;
pub mod signaling_engine;
pub mod timer;
pub mod transmit_renderer;

use vstd::prelude::*;

verus! {

/// Result code of a successful operation.
pub const RADIO_OK: i32 = 0;

/// Result code of a rejected argument, configuration, or state.
pub const RADIO_INVALID_ARGUMENT: i32 = -1;

} // verus!
