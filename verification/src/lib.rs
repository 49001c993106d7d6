//! Verified core of a command-line browser and artifact downloader for a
//! Jenkins-style continuous-integration server.
//!
//! The library holds the logic of the tool: the hierarchical regex filter
//! over pipelines, jobs and builds ([`filter`]), the ordering of the
//! results ([`sort`]), the artifact-resolution policy ([`resolve`]), the
//! construction of build paths and download URLs ([`resolve`],
//! [`download`]), and the table rendering with its inverse ([`table`]).
//! Network and file I/O live outside the library and hand it plain
//! values.

pub mod download;
pub mod escape;
pub mod filter;
pub mod model;
pub mod pattern;
pub mod resolve;
pub mod sort;
pub mod table;
pub mod text;
