//! An edge request dispatcher: routes HTTP requests by path pattern to a
//! handler and echoes WebSocket text messages back to their sender.
//!
//! The library holds the decision logic: splitting paths into segments,
//! matching them against route patterns with named parameters and catch-alls,
//! dispatching to the first matching route, building the handler responses,
//! and the relay state machine for a WebSocket connection. The host glue
//! (platform bindings, actual sockets) lives outside and hands the library
//! plain values.

use vstd::prelude::*;

pub mod json;
pub mod matcher;
pub mod pattern;
pub mod relay;
pub mod response;
pub mod router;

verus! {

/// The greeting sent once over every freshly accepted WebSocket connection,
/// and the body of the root route's response.
pub open spec fn spec_greeting() -> Seq<char> {
    "Hello from Workers!"@
}

/// Returns the fixed greeting text.
pub fn greeting() -> (r: String)
    ensures
        r@ == spec_greeting(),
{
    let g: &str = "Hello from Workers!";
    g.to_owned()
}

} // verus!
