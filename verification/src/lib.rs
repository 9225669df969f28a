//! Job dispatcher for a video-transcoding pipeline.
//!
//! The library holds the verified core of the dispatcher: decoding queue
//! notifications into jobs, the shared pending-job registry with its
//! selection cursor, assembly of launch requests for the two launch
//! backends, the per-message acknowledgement rules, and the decision
//! logic of the interactive front end.  Everything that touches the
//! network, the terminal or the process environment stays outside, in
//! the surrounding application.

pub mod decode;
pub mod dispatch;
pub mod ingress;
pub mod json;
pub mod launch;
pub mod registry;
pub mod ui;
pub mod worker;
