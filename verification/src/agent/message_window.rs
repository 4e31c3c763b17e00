//! Message window: keeps the conversation history within a size limit.
//!
//! When the history exceeds the limit, old messages are removed while the
//! system message (index 0) is kept. Cuts happen only at user turns, so
//! that tool calls and their results stay paired: the kept tail starts at
//! the nearest user turn at or before the point the limit asks for, and
//! nothing is removed when there is none.

use vstd::prelude::*;

verus! {

/// A function call that the model asked for.
#[derive(Debug, Clone, PartialEq, Eq)]
pub struct ToolCall {
    pub id: String,
    pub name: String,
    /// The arguments as the JSON text the model produced.
    pub arguments: String,
}

impl ToolCall {
    /// A copy of this call.
    pub fn duplicate(&self) -> (res: ToolCall)
        ensures
            res == *self,
    {
        ToolCall { id: self.id.clone(), name: self.name.clone(), arguments: self.arguments.clone() }
    }
}

/// One message of the conversation history.
#[derive(Debug, Clone, PartialEq, Eq)]
pub enum ChatMessage {
    System(String),
    User(String),
    /// A text reply of the model.
    Assistant(String),
    /// A turn in which the model asked for tool calls.
    AssistantToolCalls(Vec<ToolCall>),
    /// The result of the tool call with the given id.
    Tool { tool_call_id: String, content: String },
}

/// Prunes conversation histories.
pub struct MessageWindow;

/// The largest index `i` with `lo <= i < hi` that holds a user message.
pub open spec fn last_user_in(msgs: Seq<ChatMessage>, lo: int, hi: int) -> Option<int>
    decreases hi - lo,
{
    if hi <= lo {
        None
    } else if msgs[hi - 1] is User {
        Some(hi - 1)
    } else {
        last_user_in(msgs, lo, hi - 1)
    }
}

/// 1 when the history starts with a system message, else 0.
pub open spec fn spec_system_len(msgs: Seq<ChatMessage>) -> int {
    if msgs.len() > 0 && msgs[0] is System {
        1
    } else {
        0
    }
}

/// Where the kept tail would start if no user boundary were sought.
pub open spec fn spec_prune_start(msgs: Seq<ChatMessage>, max: nat) -> int {
    let keep = if max >= spec_system_len(msgs) { max - spec_system_len(msgs) } else { 0 };
    msgs.len() - keep
}

/// The end (exclusive) of the range searched for a user turn: the prune
/// start itself is included.
pub open spec fn search_end(msgs: Seq<ChatMessage>, max: nat) -> int {
    if spec_prune_start(msgs, max) < msgs.len() {
        spec_prune_start(msgs, max) + 1
    } else {
        msgs.len() as int
    }
}

/// Where the kept tail starts: the nearest user turn at or before the prune
/// start (after the system message), if there is one.
pub open spec fn cut_point(msgs: Seq<ChatMessage>, max: nat) -> Option<int> {
    last_user_in(msgs, spec_system_len(msgs), search_end(msgs, max))
}

/// The history after pruning to `max` messages: the system prefix and the
/// tail from the cut point, or the history itself when it fits or no cut
/// point after the system message exists.
pub open spec fn spec_prune(msgs: Seq<ChatMessage>, max: nat) -> Seq<ChatMessage> {
    if msgs.len() <= max {
        msgs
    } else {
        match cut_point(msgs, max) {
            Some(c) => if c > spec_system_len(msgs) {
                msgs.subrange(0, spec_system_len(msgs)) + msgs.subrange(c, msgs.len() as int)
            } else {
                msgs
            },
            None => msgs,
        }
    }
}

proof fn lemma_last_user_in(msgs: Seq<ChatMessage>, lo: int, hi: int)
    requires
        0 <= lo,
        hi <= msgs.len(),
    ensures
        last_user_in(msgs, lo, hi) matches Some(i) ==> lo <= i < hi && msgs[i] is User && forall|
            j: int,
        | i < j < hi ==> !(#[trigger] msgs[j] is User),
        last_user_in(msgs, lo, hi) is None ==> forall|j: int|
            lo <= j < hi ==> !(#[trigger] msgs[j] is User),
    decreases hi - lo,
{
    if hi > lo && !(msgs[hi - 1] is User) {
        lemma_last_user_in(msgs, lo, hi - 1);
    }
}

/// The facts about the cut point that pruning rests on.
proof fn lemma_cut_point(msgs: Seq<ChatMessage>, max: nat)
    ensures
        msgs.len() > max ==> spec_system_len(msgs) <= spec_prune_start(msgs, max),
        spec_prune_start(msgs, max) <= msgs.len(),
        search_end(msgs, max) <= msgs.len(),
        cut_point(msgs, max) matches Some(c) ==> {
            &&& spec_system_len(msgs) <= c <= spec_prune_start(msgs, max)
            &&& c < search_end(msgs, max)
            &&& msgs[c] is User
            &&& forall|j: int| c < j < search_end(msgs, max) ==> !(#[trigger] msgs[j] is User)
        },
        cut_point(msgs, max) is None ==> forall|j: int|
            spec_system_len(msgs) <= j < search_end(msgs, max) ==> !(#[trigger] msgs[j] is User),
{
    lemma_last_user_in(msgs, spec_system_len(msgs), search_end(msgs, max));
}

impl MessageWindow {
    /// Prune messages to fit within `max`, keeping the system message and the
    /// most recent turns. A cut always falls on a user turn: when anything is
    /// removed, the first message kept after the system message is a user
    /// message.
    pub fn prune(messages: &mut Vec<ChatMessage>, max: usize)
        ensures
            final(messages)@ == spec_prune(old(messages)@, max as nat),
            final(messages)@ != old(messages)@ ==> {
                &&& final(messages)@.len() < old(messages)@.len()
                &&& final(messages)@.len() > spec_system_len(old(messages)@)
                &&& final(messages)@[spec_system_len(old(messages)@)] is User
            },
    {
        if messages.len() <= max {
            return;
        }
        let ghost msgs = messages@;
        proof {
            lemma_cut_point(msgs, max as nat);
        }
        let system_len: usize = if Self::is_system_message(&messages[0]) {
            1
        } else {
            0
        };
        let target_keep: usize = max.saturating_sub(system_len);
        let prune_start: usize = messages.len() - target_keep;
        assert(prune_start as int == spec_prune_start(msgs, max as nat));
        let end: usize = if prune_start < messages.len() {
            prune_start + 1
        } else {
            messages.len()
        };
        let mut found: Option<usize> = None;
        let mut i: usize = end;
        while i > system_len
            invariant_except_break
                found is None,
            invariant
                system_len <= i <= end <= msgs.len(),
                messages@ == msgs,
                system_len as int == spec_system_len(msgs),
                end as int == search_end(msgs, max as nat),
                last_user_in(msgs, system_len as int, end as int) == last_user_in(
                    msgs,
                    system_len as int,
                    i as int,
                ),
            ensures
                found matches Some(c) ==> cut_point(msgs, max as nat) == Some(c as int),
                found is None ==> cut_point(msgs, max as nat) is None,
            decreases i,
        {
            if Self::is_user_message(&messages[i - 1]) {
                found = Some(i - 1);
                break;
            }
            i = i - 1;
        }
        if let Some(c) = found {
            if c > system_len {
                let mut tail = messages.split_off(c);
                messages.truncate(system_len);
                messages.append(&mut tail);
                assert(messages@ =~= msgs.subrange(0, system_len as int) + msgs.subrange(
                    c as int,
                    msgs.len() as int,
                ));
                assert(messages@[system_len as int] == msgs[c as int]);
            }
        }
    }

    /// Returns true if the message is a system message.
    pub fn is_system_message(msg: &ChatMessage) -> (res: bool)
        ensures
            res == (*msg is System),
    {
        matches!(msg, ChatMessage::System(_))
    }

    /// Returns true if the message is a user message.
    pub fn is_user_message(msg: &ChatMessage) -> (res: bool)
        ensures
            res == (*msg is User),
    {
        matches!(msg, ChatMessage::User(_))
    }
}

/// Pruning leaves a history that already fits untouched.
pub proof fn law_prune_within_limit_is_identity(msgs: Seq<ChatMessage>, max: nat)
    requires
        msgs.len() <= max,
    ensures
        spec_prune(msgs, max) == msgs,
{
}

/// The system message at index 0 is always kept, at index 0.
pub proof fn law_prune_keeps_system_message(msgs: Seq<ChatMessage>, max: nat)
    requires
        msgs.len() > 0,
        msgs[0] is System,
    ensures
        spec_prune(msgs, max).len() > 0,
        spec_prune(msgs, max)[0] == msgs[0],
{
    lemma_cut_point(msgs, max);
}

/// Pruning only removes one contiguous block right after the system message:
/// the result is the system prefix followed by a suffix of the history, and
/// that suffix holds at least the newest `max` messages (minus the system one).
pub proof fn law_prune_keeps_recent_suffix(msgs: Seq<ChatMessage>, max: nat)
    ensures
        spec_prune(msgs, max) == msgs || exists|c: int|
            spec_system_len(msgs) < c <= spec_prune_start(msgs, max) && c <= msgs.len()
                && #[trigger] spec_prune(msgs, max) == msgs.subrange(0, spec_system_len(msgs))
                + msgs.subrange(c, msgs.len() as int),
{
    lemma_cut_point(msgs, max);
}

/// Cuts happen only at user turns: when anything is removed, the kept
/// history resumes at the nearest user turn at or before the prune start.
pub proof fn law_prune_cuts_at_user_turn(msgs: Seq<ChatMessage>, max: nat)
    requires
        spec_prune(msgs, max) != msgs,
    ensures
        cut_point(msgs, max) is Some,
        spec_prune(msgs, max).len() > spec_system_len(msgs),
        spec_prune(msgs, max)[spec_system_len(msgs)] is User,
        spec_prune(msgs, max)[spec_system_len(msgs)] == msgs[cut_point(msgs, max)->0],
        forall|j: int|
            cut_point(msgs, max)->0 < j < search_end(msgs, max) ==> !(#[trigger] msgs[j] is User),
{
    lemma_cut_point(msgs, max);
    let sys = spec_system_len(msgs);
    let c = cut_point(msgs, max)->0;
    assert(spec_prune(msgs, max)[sys] == msgs[c]);
}

/// Pruning a pruned history again with the same limit removes nothing more.
pub proof fn law_prune_is_idempotent(msgs: Seq<ChatMessage>, max: nat)
    ensures
        spec_prune(spec_prune(msgs, max), max) == spec_prune(msgs, max),
{
    lemma_cut_point(msgs, max);
    let r = spec_prune(msgs, max);
    lemma_cut_point(r, max);
    if r != msgs && r.len() > max {
        let sys = spec_system_len(msgs);
        let c = cut_point(msgs, max)->0;
        assert(r[sys] == msgs[c]);
        if sys == 1 {
            assert(r[0] == msgs[0]);
        }
        assert(spec_system_len(r) == sys);
        // the only user turn of `r` in its search range is the one at `sys`
        assert forall|j: int| sys < j < search_end(r, max) implies !(#[trigger] r[j] is User) by {
            assert(r[j] == msgs[c + (j - sys)]);
        }
        assert(r[sys] is User);
        assert(last_user_in(r, sys, search_end(r, max)) == Some(sys)) by {
            lemma_last_user_in(r, sys, search_end(r, max));
            if last_user_in(r, sys, search_end(r, max)) is None {
                assert(!(r[sys] is User));
            }
        }
    }
}

/// `result` is the result of the single call that `call_msg` asked for.
pub open spec fn pairs_with(call_msg: ChatMessage, result: ChatMessage) -> bool {
    &&& call_msg matches ChatMessage::AssistantToolCalls(calls)
    &&& calls@.len() == 1
    &&& result matches ChatMessage::Tool { tool_call_id, .. }
    &&& calls@[0].id == tool_call_id
}

/// Every tool result directly follows the assistant turn that asked for it.
pub open spec fn results_paired(msgs: Seq<ChatMessage>) -> bool {
    forall|i: int|
        0 <= i < msgs.len() && (#[trigger] msgs[i]) is Tool ==> i > 0 && pairs_with(
            msgs[i - 1],
            msgs[i],
        )
}

/// Pruning keeps every tool result with the call it answers.
pub proof fn law_prune_keeps_results_paired(msgs: Seq<ChatMessage>, max: nat)
    requires
        results_paired(msgs),
    ensures
        results_paired(spec_prune(msgs, max)),
{
    lemma_cut_point(msgs, max);
    let sys = spec_system_len(msgs);
    let r = spec_prune(msgs, max);
    if r != msgs {
        let c = cut_point(msgs, max)->0;
        assert forall|k: int| 0 <= k < r.len() && (#[trigger] r[k]) is Tool implies k > 0
            && pairs_with(r[k - 1], r[k]) by {
            if k < sys {
                assert(r[k] == msgs[k]);
            } else {
                let j = c + (k - sys);
                assert(r[k] == msgs[j]);
                assert(msgs[j] is Tool);
                assert(j != c);
                assert(r[k - 1] == msgs[j - 1]);
            }
        }
    }
}

/// After the system message (if any), the history opens with a user turn.
pub open spec fn opens_with_user(msgs: Seq<ChatMessage>) -> bool {
    msgs.len() > spec_system_len(msgs) ==> msgs[spec_system_len(msgs)] is User
}

/// Pruning keeps the shape of a history that opens with a user turn: the
/// system message, the opening user turn, a non-empty conversation and
/// every tool result with the call it answers.
pub proof fn law_prune_keeps_history_shape(msgs: Seq<ChatMessage>, max: nat)
    requires
        results_paired(msgs),
        opens_with_user(msgs),
    ensures
        results_paired(spec_prune(msgs, max)),
        opens_with_user(spec_prune(msgs, max)),
        spec_system_len(spec_prune(msgs, max)) == spec_system_len(msgs),
        msgs.len() > spec_system_len(msgs) ==> spec_prune(msgs, max).len() > spec_system_len(msgs),
{
    lemma_cut_point(msgs, max);
    law_prune_keeps_results_paired(msgs, max);
    let sys = spec_system_len(msgs);
    let r = spec_prune(msgs, max);
    if r != msgs {
        let c = cut_point(msgs, max)->0;
        assert(r[sys] == msgs[c]);
        if sys == 1 {
            assert(r[0] == msgs[0]);
        }
    }
}

} // verus!
