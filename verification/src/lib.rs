//! Extraction of compressed report attachments from parsed mail messages.
//!
//! Given a parsed message, the library locates the part that carries a report
//! (by its declared media type), pulls the raw attachment bytes and filename
//! out of it, classifies the container format, and recovers the uncompressed
//! document together with a corrected output filename. A per-message pipeline
//! ties the stages together so that one failing message never disturbs the
//! processing of the others.

pub mod attach;
pub mod codec;
pub mod mime;
pub mod pipeline;

pub use attach::Attachment;
pub use mime::Message;
pub use mime::Part;
pub use pipeline::SkipReason;
