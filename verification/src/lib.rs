//! Verified core of a streaming image-to-text decoding service.
//!
//! The library holds the logic of the service: the repetition guard that
//! stops degenerate generation, the shared per-process store bridging the
//! upload, streaming and final-read paths, the decoding orchestrator state
//! machine, and the ordered delivery channel between the generation task
//! and the response transport.  Neural-network execution, image
//! preprocessing and HTTP plumbing are external collaborators and stay
//! outside the library.

pub mod repetition;
pub mod channel;
pub mod orchestrator;
pub mod store;
pub mod transcript;
pub mod upload;
pub mod vocab;
