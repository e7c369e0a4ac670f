//! SDP (Session Description Protocol, RFC 4566) parsing and serialization.
//!
//! Raw SDP text is split into lines, each line is dispatched to a small
//! per-record grammar, and the resulting tagged line values are folded into a
//! document: either a field-bucketed [`session::Session`] or an
//! order-preserving [`lazy_session::LazySession`].  Serialization is the
//! structural inverse of the grammars.

pub mod attributes;
pub mod lazy_session;
pub mod lines;
pub mod media_section;
pub mod parsers;
pub mod round_trip;
pub mod sdp_line;
pub mod session;

pub use crate::lazy_session::{LazyMediaSection, LazySession};
pub use crate::media_section::MediaSection;
pub use crate::parsers::{IpAddress, IpVer};
pub use crate::sdp_line::{sdp_line, sdp_lines, sdp_lines_all, SdpLine};
pub use crate::session::{SdpError, Session};
