//! Which diagnostic messages are noise.

use crate::text::{contains_str, seq_contains, seq_starts_with, starts_with_str};
use vstd::prelude::*;

verus! {

/// Source of the event-loop messages that are dropped.
pub const NOISY_TARGET: &'static str = "tao::platform_impl::platform::event_loop::runner";

/// Whether a message is one of the event-loop warnings that carry no information.
pub open spec fn is_noise(target: Seq<char>, message: Seq<char>) -> bool {
    seq_starts_with(target, NOISY_TARGET@) && (seq_contains(
        message,
        "NewEvents emitted without explicit RedrawEventsCleared"@,
    ) || seq_contains(message, "RedrawEventsCleared emitted without explicit MainEventsCleared"@))
}

/// Whether a message from `target` should be dropped.
pub fn should_filter_log(target: &str, message: &str) -> (r: bool)
    ensures
        r == is_noise(target@, message@),
{
    starts_with_str(target, NOISY_TARGET) && (contains_str(
        message,
        "NewEvents emitted without explicit RedrawEventsCleared",
    ) || contains_str(message, "RedrawEventsCleared emitted without explicit MainEventsCleared"))
}

} // verus!
