//! Decisions of the detached-timer cleanup of transient UI. A scheduled unit
//! is fire-and-forget and cannot be cancelled, so only cleanup and UX actions
//! belong in one; the caller runs the timers and reports each action's
//! outcome back to these step functions.

use vstd::prelude::*;

verus! {

/// What the cleanup of a challenge message does next.
#[derive(Debug, Clone, Copy, PartialEq, Eq, Structural)]
pub enum CleanupStep {
    /// Send the notice that the challenge expired.
    SendExpiryNotice,
    /// Wait out the message window, then delete the expiry notice.
    DeleteNotice,
    /// Nothing further.
    Done,
}

/// The step after the challenge window elapsed and the challenge message was
/// (tentatively) deleted: the expiry notice is shown only when that deletion
/// actually removed the challenge — when the member answered in time, the
/// answer path already cleaned it up and deleting reports a failure, so no
/// stale notice appears.
pub fn after_challenge_delete(delete_succeeded: bool) -> (r: CleanupStep)
    ensures
        delete_succeeded ==> r == CleanupStep::SendExpiryNotice,
        !delete_succeeded ==> r == CleanupStep::Done,
{
    if delete_succeeded {
        CleanupStep::SendExpiryNotice
    } else {
        CleanupStep::Done
    }
}

/// The step after the expiry notice was sent: when sending worked the notice
/// itself is deleted after the message window; a failed send leaves nothing
/// to clean up. Failures of these cleanup actions are swallowed, never
/// propagated.
pub fn after_notice_sent(send_succeeded: bool) -> (r: CleanupStep)
    ensures
        send_succeeded ==> r == CleanupStep::DeleteNotice,
        !send_succeeded ==> r == CleanupStep::Done,
{
    if send_succeeded {
        CleanupStep::DeleteNotice
    } else {
        CleanupStep::Done
    }
}

} // verus!
