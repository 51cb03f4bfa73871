//! Movie metadata ingest: the computations of a pipeline that reads a nightly
//! export of movie identifiers, fetches details and credits for each of them and
//! writes the records to a relational store by upserts.
//!
//! The crate performs no network, file or database I/O itself. Each step that
//! needs the outside world is described as a value (a URL to fetch, a packet
//! to send, a statement to execute) and resumed with the outcome; everything
//! in between is verified.
//!
//! - [`config`]: the settings of a run, read from TOML.
//! - [`export`], [`decimal`]: the date of the export and the URLs to fetch.
//! - [`gzip`], [`lines`], [`json`]: from the body of a response to records.
//! - [`client`]: the client of the movie database, without its transport.
//! - [`pipeline`]: the fetching side, as a state machine, and what the
//!   pipeline needs of the channel between the two sides.
//! - [`writer`]: the writing side, as a state machine.
//! - [`tables`], [`dry_run`]: the three tables in memory, what the writer's
//!   statements do to them, and what a written packet leaves in them.
//! - [`records`]: the records that travel through the pipeline.

pub mod client;
pub mod config;
pub mod decimal;
pub mod dry_run;
pub mod export;
pub mod gzip;
pub mod json;
pub mod lines;
pub mod pipeline;
pub mod records;
pub mod tables;
pub mod writer;

pub use client::TmdbClient;
pub use records::{Cast, CastMember, MovieDetails, MovieIdEntry, Packet};
pub use writer::DatabaseWriter;
