//! Inbound and outbound messages of the chat channels.

use vstd::prelude::*;

use crate::text::{push_str, string_of};

verus! {

/// A message received from a chat channel.
#[derive(Debug, Clone)]
pub struct InboundMessage {
    /// The channel's name, such as "telegram" or "cli"
    pub channel: String,
    /// The sender's id
    pub sender_id: String,
    /// The chat's id
    pub chat_id: String,
    /// The message text
    pub content: String,
}

impl InboundMessage {
    /// The unique key of the conversation this message belongs to:
    /// `channel:chat_id`, so that the same chat id on two channels makes two
    /// sessions (see `law_session_keys_distinct`).
    pub fn session_key(&self) -> (res: String)
        ensures
            res@ == spec_session_key(self.channel@, self.chat_id@),
    {
        let mut out: Vec<char> = Vec::new();
        push_str(&mut out, self.channel.as_str());
        out.push(':');
        push_str(&mut out, self.chat_id.as_str());
        string_of(&out)
    }
}

/// A message to send to a user.
#[derive(Debug, Clone)]
pub struct OutboundMessage {
    pub channel: String,
    pub chat_id: String,
    pub content: String,
}

/// The key `session_key` gives a channel and a chat.
pub open spec fn spec_session_key(channel: Seq<char>, chat_id: Seq<char>) -> Seq<char> {
    channel + seq![':'] + chat_id
}

/// Distinct sessions get distinct keys: where neither channel name holds a
/// `:`, equal keys mean the same channel and the same chat.
pub proof fn law_session_keys_distinct(
    channel1: Seq<char>,
    chat1: Seq<char>,
    channel2: Seq<char>,
    chat2: Seq<char>,
)
    requires
        !channel1.contains(':'),
        !channel2.contains(':'),
        spec_session_key(channel1, chat1) == spec_session_key(channel2, chat2),
    ensures
        channel1 == channel2,
        chat1 == chat2,
{
    let k = spec_session_key(channel1, chat1);
    let k2 = spec_session_key(channel2, chat2);
    let n1 = channel1.len() as int;
    let n2 = channel2.len() as int;
    assert(k[n1] == ':');
    assert(k2[n2] == ':');
    if n1 < n2 {
        assert(k2[n1] == channel2[n1]);
        assert(false);
    } else if n2 < n1 {
        assert(k[n2] == channel1[n2]);
        assert(false);
    }
    assert(channel1 =~= k.subrange(0, n1));
    assert(channel2 =~= k2.subrange(0, n2));
    assert(chat1 =~= k.subrange(n1 + 1, k.len() as int));
    assert(chat2 =~= k2.subrange(n2 + 1, k2.len() as int));
}

} // verus!
