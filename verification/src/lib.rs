//! Dynamic cursor effects for the niri compositor: the recorded motion of the
//! cursor, the "shake to find" state machine and the cursor image buffers.

pub mod config;
pub mod history;
pub mod renderer;
pub mod shake;
