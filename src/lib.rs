// Supervisor of the image-diffusion worker process: the record of its state
// and the transitions between states, the readiness handshake on its output,
// and the reading of the port-owner listing used to reclaim its port.
pub mod error;
pub mod readiness;
pub mod reclaim;
pub mod state;
