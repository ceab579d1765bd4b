//! The FAST corner detector: each interior pixel of a grey image is compared
//! with a ring of sixteen pixels around it, and is a corner when a long enough
//! contiguous arc of the ring is all darker or all brighter than it. Adjacent
//! detections can then be thinned to the strongest.

pub mod fast;
pub mod gray;
pub mod laws;
pub mod ring;
pub mod suppress;
pub mod traits;
pub mod utils;

pub use fast::{FASTDetector, FASTDetectorParams, FastError};
pub use gray::GrayImage;
pub use ring::Classification;
pub use traits::KeypointDetector;
pub use utils::ImgCoords;
