//! The channel-post policy evaluator: whether a post authored by a channel
//! identity may stay in the chat.

use vstd::prelude::*;

verus! {

use crate::settings::BanChannels;

/// The verdict on a channel post.
#[derive(Debug, Clone, Copy, PartialEq, Eq, Structural)]
pub enum PostVerdict {
    Allow,
    Deny,
}

/// A post is allowed when the chat has no channel policy, or when the policy
/// spares the linked channel and the poster is exactly that channel;
/// otherwise it is denied. A denial means removing the message and banning
/// the channel, as two independent best-effort platform calls.
pub open spec fn spec_evaluate_channel_post(
    policy: Option<BanChannels>,
    sender_channel_id: int,
) -> PostVerdict {
    match policy {
        None => PostVerdict::Allow,
        Some(BanChannels::All) => PostVerdict::Deny,
        Some(BanChannels::AllExceptLinked(id)) => if sender_channel_id == id {
            PostVerdict::Allow
        } else {
            PostVerdict::Deny
        },
    }
}

/// Evaluates the chat's channel policy against the posting channel.
pub fn evaluate_channel_post(policy: &Option<BanChannels>, sender_channel_id: i64) -> (r:
    PostVerdict)
    ensures
        r == spec_evaluate_channel_post(*policy, sender_channel_id as int),
{
    match policy {
        None => PostVerdict::Allow,
        Some(BanChannels::All) => PostVerdict::Deny,
        Some(BanChannels::AllExceptLinked(id)) => {
            if sender_channel_id == *id {
                PostVerdict::Allow
            } else {
                PostVerdict::Deny
            }
        },
    }
}

} // verus!
