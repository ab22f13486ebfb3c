//! Session bookkeeping and the text command protocol of a phone-as-camera streaming server.
use vstd::prelude::*;

pub mod sparse_set;
pub mod text;
pub mod server;
pub mod app_state;
pub mod frontend;
pub mod messages;

verus! {

} // verus!
