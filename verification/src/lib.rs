use vstd::prelude::*;

pub mod model;
pub mod text;
pub mod html;
pub mod decimal;
pub mod errors;
pub mod folders;
pub mod codes;
pub mod protocol;
pub mod sync;
pub mod secret;
pub mod account;
pub mod ai;
pub mod sync_state;
pub mod watch;
pub mod actions;
pub mod mock_protocol;
pub mod live;
pub mod search;
pub mod mime;
pub mod clock;
pub mod refresh;

verus! {
}
