//! Verified core of a directory-backup tool that stores compressed project
//! archives in a remote object-storage bucket.
//!
//! The heart of the crate is the transfer pipeline: a size-adaptive choice
//! between a single-shot put and a chunked multipart upload, a coordinator
//! that drives the multipart protocol and guarantees that no partial upload
//! survives a failure, a download streamer, and a reaper that aborts stale
//! multipart sessions. The pipeline is modelled as state machines whose
//! decisions are verified here; an unverified shell performs the actual
//! network and file I/O and feeds the observed responses back as events.
//! Around the pipeline stand the verified pieces of the surrounding tool:
//! project discovery and registration, the recent-projects settings parser,
//! archive inclusion rules, and the shell's command completion.

pub mod archive;
pub mod bucket;
pub mod config;
pub mod download;
pub mod engine;
pub mod errors;
pub mod input;
pub mod multipart;
pub mod pipeline;
pub mod progress;
pub mod project;
pub mod settings;
pub mod strategy;
pub mod target;
pub mod text;

pub use errors::TransferError;
pub use strategy::CHUNK_SIZE;
pub use strategy::MULTIPART_THRESHOLD;
pub use strategy::TransferStrategy;
pub use strategy::part_count;
pub use strategy::select_strategy;
