//! A read-only, line-addressable record store: an immutable text file whose
//! records are its lines, addressed by 1-based line number through a byte
//! offset index, served over a compact checksummed framing protocol.

mod cache;
mod conn;
mod db;
mod frame;
mod index;

pub use cache::{cache_round_trip, decode_index, encode_index, load_or_build_index};
pub use conn::{FrameAction, Plan, err_response, get_response, plan_frame, shutdown_response};
pub use db::{Database, DbError, get_line};
pub use frame::{Command, Frame, FrameError, encode_wire};
pub use index::build_index;
