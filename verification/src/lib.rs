//! Authorization for a rendezvous server: decides, with the answers of an
//! external control API, which controllers may open a connection.
//!
//! The crate holds every decision and every byte that is sent; it performs no
//! I/O. Each call takes the clock reading it works with, and a call that needs
//! the control API hands back the request to send.

pub mod attempts;
pub mod blocks;
pub mod check;
pub mod clock;
pub mod config;
pub mod diag;
pub mod json;
pub mod laws;
pub mod ledger;
pub mod request;
pub mod seen;
pub mod text;
pub mod verify;

pub use attempts::{
    attempt_result, report_attempt, Attempt, AttemptKind, AttemptLog, AttemptResult, ConnType, Via,
};
pub use blocks::{record_block, BlockEntry, BlockLog, MAX_BLOCK_ENTRIES};
pub use check::{
    check_token, finish_check, CheckStep, PendingCheck, TokenAnswer, TokenCache, MSG_API_DOWN,
    MSG_DENIED, MSG_LOGIN_REQUIRED,
};
pub use clock::WallTime;
pub use config::{is_enabled, Args, Config};
pub use diag::{blocks_are_dated, diag};
pub use ledger::{Ledger, Stamped, MAX_CACHE_ENTRIES};
pub use request::HttpRequest;
pub use seen::{report_seen, SeenLog};
pub use verify::{call_verify, needs_body, VerifyReply};
