//! Verified handlers of a small web service: a realtime broadcast room and
//! a collection of puzzle endpoints.
//!
//! Every module holds what one family of endpoints decides: plain values
//! in, plain values out, with the behaviour stated in the contracts. The
//! service around them does the waiting, the reading and the sending.
//!
//! - `day19` is the broadcast room: the state that all connections share,
//!   the liveness handshake and the chat session, over the message channel
//!   of `channel`.
//! - `day1` to `day22`, `day_negative_1` and `tiebreaker` hold one puzzle
//!   each.
//! - `text` holds the text and number operations that they share, `status`
//!   the status of an answer.
//!
//! A handler never panics. Where the service cannot work on an input, the
//! handler says so in its result, mostly as an internal server error.

pub mod channel;
pub mod day1;
pub mod day11;
pub mod day12;
pub mod day13;
pub mod day15;
pub mod day19;
pub mod day20;
pub mod day21;
pub mod day22;
pub mod day4;
pub mod day5;
pub mod day6;
pub mod day7;
pub mod day8;
pub mod day_negative_1;
pub mod status;
pub mod text;
pub mod tiebreaker;
