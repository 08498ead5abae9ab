//! A multi-language source formatter.
//!
//! The crate's own logic is a line-oriented re-indentation and
//! token-normalization engine for shell scripts, together with small
//! heuristic formatters for Makefiles, nginx configuration, protobuf
//! and R sources. The remaining file kinds delegate to complete
//! third-party formatters behind thin, trusted call sites.

pub mod formats;
