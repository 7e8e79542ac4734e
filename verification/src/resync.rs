//! Keeping a channel in step with the alerts: which messages have to go
//! before the fresh ones are posted.
//!
//! The alerts of one kind for one user are replaced as a whole. Every
//! message that this bot wrote under the kind's header for the user is
//! deleted, then the fresh messages are posted. Doing so again leaves the
//! channel with the same messages, so a cycle that is tried again does no
//! harm.

use vstd::prelude::*;
use vstd::string::*;
use crate::render::{lemma_messages_well_formed, pack, well_formed_message};
use crate::text::starts_with;

verus! {

/// What the resync needs of a message in a channel.
#[derive(Debug)]
pub struct ChannelMessage {
    pub id: u64,
    /// The identifier of the user who wrote the message.
    pub author: u64,
    /// Whether the message is shown to one user only.
    pub ephemeral: bool,
    pub content: String,
}

/// Whether the message is an alert that a fresh one replaces: the bot wrote
/// it, everyone sees it, and it begins with the header.
pub open spec fn stale(message: ChannelMessage, bot: u64, header: Seq<char>) -> bool {
    &&& !message.ephemeral
    &&& message.author == bot
    &&& header.is_prefix_of(message.content@)
}

/// The identifiers of the messages to replace, in the order of the
/// messages.
pub open spec fn stale_ids(messages: Seq<ChannelMessage>, bot: u64, header: Seq<char>) -> Seq<u64> {
    messages.filter(|m: ChannelMessage| stale(m, bot, header)).map_values(|m: ChannelMessage| m.id)
}

/// Whether the message is an alert that a fresh one replaces.
pub fn is_stale(message: &ChannelMessage, bot: u64, header: &str) -> (r: bool)
    ensures
        r == stale(*message, bot, header@),
{
    if message.ephemeral {
        return false;
    }
    if message.author != bot {
        return false;
    }
    starts_with(message.content.as_str(), header)
}

/// What to do with one listing of a channel's messages.
#[derive(Debug, PartialEq, Eq)]
pub struct Resync {
    /// The messages to delete.
    pub delete: Vec<u64>,
    /// Whether to list the channel again once they are deleted: more of
    /// them may stand further back.
    pub list_again: bool,
}

/// Picks from a listing of a channel the messages to delete: those that the
/// bot wrote under the header. The channel is listed again as long as a
/// listing holds such a message.
pub fn delete_messages(messages: &Vec<ChannelMessage>, bot: u64, header: &str) -> (r: Resync)
    ensures
        r.delete@ == stale_ids(messages@, bot, header@),
        r.list_again == (r.delete@.len() > 0),
{
    let mut delete: Vec<u64> = Vec::new();
    let mut i: usize = 0;
    while i < messages.len()
        invariant
            i <= messages@.len(),
            delete@ == stale_ids(messages@.take(i as int), bot, header@),
        decreases messages@.len() - i,
    {
        proof {
            let p = |m: ChannelMessage| stale(m, bot, header@);
            let before = messages@.take(i as int);
            assert(messages@.take(i + 1) =~= before.push(messages@[i as int]));
            before.lemma_filter_push(messages@[i as int], p);
        }
        if is_stale(&messages[i], bot, header) {
            delete.push(messages[i].id);
        }
        proof {
            assert(delete@ =~= stale_ids(messages@.take(i + 1), bot, header@));
        }
        i += 1;
    }
    assert(messages@.take(i as int) =~= messages@);
    let list_again = delete.len() > 0;
    Resync { delete, list_again }
}

/// The messages that a resync under the header leaves in the channel.
pub open spec fn survivors(channel: Seq<ChannelMessage>, bot: u64, header: Seq<char>) -> Seq<
    ChannelMessage,
> {
    channel.filter(|m: ChannelMessage| !stale(m, bot, header))
}

/// The alerts under the header that stand in the channel.
pub open spec fn live_alerts(channel: Seq<ChannelMessage>, bot: u64, header: Seq<char>) -> Seq<
    ChannelMessage,
> {
    channel.filter(|m: ChannelMessage| stale(m, bot, header))
}

/// The texts of the messages, in their order.
pub open spec fn contents(messages: Seq<ChannelMessage>) -> Seq<Seq<char>> {
    messages.map_values(|m: ChannelMessage| m.content@)
}

/// `posted` are the messages that the bot posts for the lines under the
/// header: the packed texts in their order, written by the bot for everyone
/// to see.
pub open spec fn posted_for(
    posted: Seq<ChannelMessage>,
    bot: u64,
    header: Seq<char>,
    lines: Seq<Seq<char>>,
) -> bool {
    &&& contents(posted) == pack(header, lines)
    &&& forall|k: int|
        0 <= k < posted.len() ==> (#[trigger] posted[k]).author == bot && !posted[k].ephemeral
}

/// `after` is the channel `before` once the alerts under the header were
/// delivered: the stale messages are gone, and the fresh ones stand at the
/// end.
pub open spec fn delivered(
    before: Seq<ChannelMessage>,
    after: Seq<ChannelMessage>,
    bot: u64,
    header: Seq<char>,
    lines: Seq<Seq<char>>,
) -> bool {
    exists|posted: Seq<ChannelMessage>|
        #![auto]
        posted_for(posted, bot, header, lines) && after == survivors(before, bot, header) + posted
}

pub(crate) proof fn lemma_filter_all<A>(s: Seq<A>, p: spec_fn(A) -> bool)
    requires
        forall|k: int| 0 <= k < s.len() ==> p(#[trigger] s[k]),
    ensures
        s.filter(p) == s,
    decreases s.len(),
{
    reveal(Seq::filter);
    if s.len() > 0 {
        lemma_filter_all(s.drop_last(), p);
        assert(s.drop_last().push(s.last()) =~= s);
    }
}

pub(crate) proof fn lemma_filter_none<A>(s: Seq<A>, p: spec_fn(A) -> bool)
    requires
        forall|k: int| 0 <= k < s.len() ==> !p(#[trigger] s[k]),
    ensures
        s.filter(p) == Seq::<A>::empty(),
    decreases s.len(),
{
    reveal(Seq::filter);
    if s.len() > 0 {
        lemma_filter_none(s.drop_last(), p);
    }
}

/// After a delivery the alerts under the header that stand in the channel
/// are the fresh messages and no others, and every other message stands as
/// before.
pub proof fn lemma_one_live_set(
    before: Seq<ChannelMessage>,
    after: Seq<ChannelMessage>,
    bot: u64,
    header: Seq<char>,
    lines: Seq<Seq<char>>,
)
    requires
        delivered(before, after, bot, header, lines),
    ensures
        contents(live_alerts(after, bot, header)) == pack(header, lines),
        survivors(after, bot, header) == survivors(before, bot, header),
{
    let posted = choose|posted: Seq<ChannelMessage>|
        #![auto]
        posted_for(posted, bot, header, lines) && after == survivors(before, bot, header) + posted;
    let kept = survivors(before, bot, header);
    let is_stale = |m: ChannelMessage| stale(m, bot, header);
    let is_fresh = |m: ChannelMessage| !stale(m, bot, header);
    lemma_messages_well_formed(header, lines);
    assert forall|k: int| 0 <= k < posted.len() implies is_stale(#[trigger] posted[k]) by {
        assert(contents(posted)[k] == posted[k].content@);
        assert(well_formed_message(header, pack(header, lines)[k]));
    }
    assert forall|k: int| 0 <= k < kept.len() implies is_fresh(#[trigger] kept[k]) by {
        before.lemma_filter_pred(is_fresh, k);
    }
    lemma_filter_all(posted, is_stale);
    lemma_filter_none(posted, is_fresh);
    lemma_filter_all(kept, is_fresh);
    lemma_filter_none(kept, is_stale);
    Seq::filter_distributes_over_add(kept, posted, is_stale);
    Seq::filter_distributes_over_add(kept, posted, is_fresh);
    assert(live_alerts(after, bot, header) =~= posted);
    assert(survivors(after, bot, header) =~= kept);
}

/// Delivering the same lines twice in a row leaves the channel as
/// delivering them once: one set of alerts under the header, the fresh one,
/// and every other message as it stood before the first delivery.
pub proof fn lemma_resync_idempotent(
    start: Seq<ChannelMessage>,
    once: Seq<ChannelMessage>,
    twice: Seq<ChannelMessage>,
    bot: u64,
    header: Seq<char>,
    lines: Seq<Seq<char>>,
)
    requires
        delivered(start, once, bot, header, lines),
        delivered(once, twice, bot, header, lines),
    ensures
        contents(live_alerts(twice, bot, header)) == pack(header, lines),
        contents(live_alerts(twice, bot, header)) == contents(live_alerts(once, bot, header)),
        survivors(twice, bot, header) == survivors(start, bot, header),
{
    lemma_one_live_set(start, once, bot, header, lines);
    lemma_one_live_set(once, twice, bot, header, lines);
}

} // verus!
