//! How alerts are written: one line for each item, and the lines packed
//! into messages that the chat platform accepts.

use vstd::prelude::*;
use vstd::string::*;
use crate::github::{LeadsIssue, Pr};
use crate::ids::{mention, DiscordUserId};
use crate::text::{
    byte_len, byte_length, count_char, decimal, lemma_byte_len_concat, odd_count, push_decimal,
};

verus! {

/// The most bytes that the chat platform takes in one message.
pub const MESSAGE_BYTE_CAP: usize = 2000;

pub const PR_HEADER: &'static str = ":notepad_spiral: PRs for review ";

pub const BLOCKING_ISSUES_HEADER: &'static str = ":fire_engine: Open leads issues (blocking) ";

pub const NONURGENT_ISSUES_HEADER: &'static str = ":chipmunk: Open leads issues (non-blocking) ";

/// What a line of a message begins with. The line break comes first, so
/// that a message is its header with the entries behind it.
pub const ENTRY_PREFIX: &'static str = "\n* ";

/// The header of a kind of alert for one user: the kind's title with the
/// user's mention behind it.
pub open spec fn header_for(title: Seq<char>, user: Seq<char>) -> Seq<char> {
    title + mention(user)
}

/// The header of a kind of alert for one user.
pub fn alert_header(title: &str, user: &DiscordUserId) -> (r: String)
    ensures
        r@ == header_for(title@, user@),
{
    let mut header = String::from_str(title);
    let who = user.to_string();
    header.append(who.as_str());
    header
}

/// Whether the title is that of one of the three kinds of alerts.
pub open spec fn is_alert_title(title: Seq<char>) -> bool {
    title == PR_HEADER@ || title == BLOCKING_ISSUES_HEADER@ || title == NONURGENT_ISSUES_HEADER@
}

/// The header of one user's alerts begins no message of another user's
/// alerts of the same kind: where a message that begins with the header of
/// `other` also begins with the header of `user`, the two are the same
/// user. This holds of identifiers without a `>` in them, such as numbers.
pub proof fn lemma_headers_tell_users_apart(
    title: Seq<char>,
    user: Seq<char>,
    other: Seq<char>,
    rest: Seq<char>,
)
    requires
        !user.contains('>'),
        !other.contains('>'),
        header_for(title, user).is_prefix_of(header_for(title, other) + rest),
    ensures
        user == other,
{
    let mine = header_for(title, user);
    let message = header_for(title, other) + rest;
    let start: int = title.len() as int + 2;
    assert forall|k: int| 0 <= k < mine.len() implies mine[k] == message[k] by {
        assert(mine[k] == message.subrange(0, mine.len() as int)[k]);
    }
    if user.len() < other.len() {
        assert(mine[start + user.len()] == '>');
        assert(message[start + user.len()] == other[user.len() as int]);
        assert(other.contains(other[user.len() as int]));
    } else if user.len() > other.len() {
        assert(mine[start + other.len()] == user[other.len() as int]);
        assert(message[start + other.len()] == '>');
        assert(user.contains(user[other.len() as int]));
    } else {
        assert forall|k: int| 0 <= k < user.len() implies user[k] == other[k] by {
            assert(mine[start + k] == user[k]);
            assert(message[start + k] == other[k]);
        }
        assert(user =~= other);
    }
}

/// The header of one kind of alerts begins no message of another kind:
/// where a message that begins with a header under the title `other` also
/// begins with a header under `title`, the two are the same title.
pub proof fn lemma_headers_tell_kinds_apart(
    title: Seq<char>,
    other: Seq<char>,
    user: Seq<char>,
    other_user: Seq<char>,
    rest: Seq<char>,
)
    requires
        is_alert_title(title),
        is_alert_title(other),
        header_for(title, user).is_prefix_of(header_for(other, other_user) + rest),
    ensures
        title == other,
{
    reveal_strlit(":notepad_spiral: PRs for review ");
    reveal_strlit(":fire_engine: Open leads issues (blocking) ");
    reveal_strlit(":chipmunk: Open leads issues (non-blocking) ");
    let mine = header_for(title, user);
    let message = header_for(other, other_user) + rest;
    assert(mine[1] == message.subrange(0, mine.len() as int)[1]);
    assert(mine[1] == title[1]);
    assert(message[1] == other[1]);
}

/// The alerts of one user and kind begin with no other header than their
/// own: where a message begins with the header of `user` under `title`
/// and with that of `other_user` under `other`, the users are the same and
/// so are the kinds.
pub proof fn lemma_alerts_do_not_overlap(
    title: Seq<char>,
    user: Seq<char>,
    other: Seq<char>,
    other_user: Seq<char>,
    message: Seq<char>,
)
    requires
        is_alert_title(title),
        is_alert_title(other),
        !user.contains('>'),
        !other_user.contains('>'),
        header_for(title, user).is_prefix_of(message),
        header_for(other, other_user).is_prefix_of(message),
    ensures
        title == other,
        user == other_user,
{
    let mine = header_for(title, user);
    let theirs = header_for(other, other_user);
    if mine.len() <= theirs.len() {
        let rest = message.skip(theirs.len() as int);
        assert(message =~= theirs + rest);
        lemma_headers_tell_kinds_apart(title, other, user, other_user, rest);
        lemma_headers_tell_users_apart(title, user, other_user, rest);
    } else {
        let rest = message.skip(mine.len() as int);
        assert(message =~= mine + rest);
        lemma_headers_tell_kinds_apart(other, title, other_user, user, rest);
        lemma_headers_tell_users_apart(title, other_user, user, rest);
    }
}

/// A title with a backquote added at its end where it holds an odd number
/// of them, so that code formatting ends with the title.
pub open spec fn balanced(title: Seq<char>) -> Seq<char> {
    if count_char(title, '`') % 2 == 1 {
        title.push('`')
    } else {
        title
    }
}

/// The line of a pull request: its number as a link to it, then the author
/// in bold where there is one, then the title on a line of its own where
/// there is one.
pub open spec fn pr_line(number: u64, url: Seq<char>, author: Option<Seq<char>>, title: Option<
    Seq<char>,
>) -> Seq<char> {
    let link = "[PR #"@ + decimal(number as nat) + "](<"@ + url + ">)"@;
    let by = match author {
        Some(login) => " **"@ + login + "**"@,
        None => Seq::empty(),
    };
    let about = match title {
        Some(text) => "\n    "@ + balanced(text),
        None => Seq::empty(),
    };
    link + by + about
}

/// The line of an issue: its number as a link to it, then the title.
pub open spec fn issue_line(number: u64, url: Seq<char>, title: Seq<char>) -> Seq<char> {
    "[Issue #"@ + decimal(number as nat) + "](<"@ + url + ">) "@ + balanced(title)
}

impl Pr {
    /// The line that the pull request is written as.
    pub open spec fn line(&self) -> Seq<char> {
        pr_line(
            self.pr.number,
            self.url@,
            match self.pr.user {
                Some(login) => Some(login@),
                None => None,
            },
            match self.pr.title {
                Some(text) => Some(text@),
                None => None,
            },
        )
    }
}

impl LeadsIssue {
    /// The line that the issue is written as.
    pub open spec fn line(&self) -> Seq<char> {
        issue_line(self.github_issue.number, self.url@, self.github_issue.title@)
    }
}

pub fn format_pr(pr: &Pr) -> (r: String)
    ensures
        r@ == pr.line(),
{
    let mut msg = String::from_str("[PR #");
    push_decimal(&mut msg, pr.pr.number);
    msg.append("](<");
    msg.append(pr.url.as_str());
    msg.append(">)");
    let ghost link = msg@;
    match &pr.pr.user {
        Some(login) => {
            msg.append(" **");
            msg.append(login.0.as_str());
            msg.append("**");
        },
        None => {},
    }
    let ghost by = msg@;
    match &pr.pr.title {
        Some(title) => {
            msg.append("\n    ");
            msg.append(title.as_str());
            if odd_count(title.as_str(), '`') {
                msg.append("`");
            }
        },
        None => {},
    }
    proof {
        reveal_strlit("`");
        assert("`"@ =~= seq!['`']);
        assert(msg@ =~= pr.line());
    }
    msg
}

pub fn format_issue(issue: &LeadsIssue) -> (r: String)
    ensures
        r@ == issue.line(),
{
    let mut msg = String::from_str("[Issue #");
    push_decimal(&mut msg, issue.github_issue.number);
    msg.append("](<");
    msg.append(issue.url.as_str());
    msg.append(">) ");
    msg.append(issue.github_issue.title.as_str());
    if odd_count(issue.github_issue.title.as_str(), '`') {
        msg.append("`");
    }
    proof {
        reveal_strlit("`");
        assert("`"@ =~= seq!['`']);
        assert(msg@ =~= issue.line());
    }
    msg
}

/// A line as it stands in a message.
pub open spec fn entry(line: Seq<char>) -> Seq<char> {
    ENTRY_PREFIX@ + line
}

/// Whether a message of the header and the entries `body` has room for one
/// more line.
pub open spec fn has_room(header: Seq<char>, body: Seq<char>, line: Seq<char>) -> bool {
    byte_len(header) + byte_len(body) + byte_len(entry(line)) <= MESSAGE_BYTE_CAP
}

/// Whether a line goes into a message of the header at all.
pub open spec fn fits_alone(header: Seq<char>, line: Seq<char>) -> bool {
    has_room(header, Seq::empty(), line)
}

/// The messages for the lines from the `i`th on, where the entries `body`
/// are already in the message being filled. A line goes into the message
/// being filled while the message stays within the cap; a line that no
/// longer fits starts a new message; a line that does not even fit into a
/// message of its own is left out.
pub open spec fn pack_from(header: Seq<char>, lines: Seq<Seq<char>>, i: int, body: Seq<char>) -> Seq<
    Seq<char>,
>
    decreases lines.len() - i,
{
    if i < 0 || i >= lines.len() {
        if body.len() == 0 {
            Seq::empty()
        } else {
            seq![header + body]
        }
    } else if !fits_alone(header, lines[i]) {
        pack_from(header, lines, i + 1, body)
    } else if has_room(header, body, lines[i]) {
        pack_from(header, lines, i + 1, body + entry(lines[i]))
    } else {
        seq![header + body] + pack_from(header, lines, i + 1, entry(lines[i]))
    }
}

/// The messages that the lines are sent as under the header.
pub open spec fn pack(header: Seq<char>, lines: Seq<Seq<char>>) -> Seq<Seq<char>> {
    pack_from(header, lines, 0, Seq::empty())
}

/// The texts of a list of strings.
pub open spec fn texts(strings: Seq<String>) -> Seq<Seq<char>> {
    strings.map_values(|s: String| s@)
}

/// Packs the lines into messages under the header, each message within
/// the cap of 2000 bytes. Without a line there is no message.
pub fn generate_alert_messages(header: &String, lines: &Vec<String>) -> (r: Vec<String>)
    ensures
        texts(r@) == pack(header@, texts(lines@)),
{
    let ghost all = texts(lines@);
    let header_len = byte_length(header.as_str());
    let prefix_len = byte_length(ENTRY_PREFIX);
    let mut out: Vec<String> = Vec::new();
    let mut body = String::new();
    let mut body_len: usize = 0;
    let mut i: usize = 0;
    proof {
        lemma_empty_body(body@);
    }
    while i < lines.len()
        invariant
            i <= lines@.len(),
            all == texts(lines@),
            header_len == byte_len(header@),
            prefix_len == byte_len(ENTRY_PREFIX@),
            body_len == byte_len(body@),
            header_len + body_len <= MESSAGE_BYTE_CAP || body_len == 0,
            texts(out@) + pack_from(header@, all, i as int, body@) == pack(header@, all),
        decreases lines@.len() - i,
    {
        let line = &lines[i];
        let line_len = byte_length(line.as_str());
        proof {
            assert(all[i as int] == line@);
            lemma_byte_len_concat(ENTRY_PREFIX@, line@);
            lemma_byte_len_concat(body@, entry(line@));
            lemma_empty_body(body@);
            lemma_empty_body(Seq::empty());
        }
        let alone = header_len <= MESSAGE_BYTE_CAP && prefix_len <= MESSAGE_BYTE_CAP - header_len
            && line_len <= MESSAGE_BYTE_CAP - header_len - prefix_len;
        assert(alone == fits_alone(header@, line@));
        if alone {
            let room = body_len <= MESSAGE_BYTE_CAP - header_len - prefix_len - line_len;
            assert(room == has_room(header@, body@, line@));
            if !room {
                let mut message = header.clone();
                message.append(body.as_str());
                let ghost before = out@;
                out.push(message);
                proof {
                    assert(texts(out@) =~= texts(before).push(header@ + body@));
                    assert(texts(out@) + pack_from(header@, all, i + 1, entry(line@)) =~= texts(
                        before,
                    ) + (seq![header@ + body@] + pack_from(header@, all, i + 1, entry(line@))));
                }
                body = String::new();
                body_len = 0;
            }
            let ghost filled = body@;
            body.append(ENTRY_PREFIX);
            body.append(line.as_str());
            body_len = body_len + prefix_len + line_len;
            proof {
                assert(body@ =~= filled + entry(line@));
                if !room {
                    assert(filled + entry(line@) =~= entry(line@));
                } else {
                    lemma_byte_len_concat(filled, entry(line@));
                }
            }
        }
        i += 1;
    }
    proof {
        lemma_empty_body(body@);
    }
    if body_len > 0 {
        let mut message = header.clone();
        message.append(body.as_str());
        let ghost before = out@;
        out.push(message);
        proof {
            assert(texts(out@) =~= texts(before) + seq![header@ + body@]);
        }
    } else {
        proof {
            assert(texts(out@) + Seq::<Seq<char>>::empty() =~= texts(out@));
        }
    }
    out
}

/// The entries of the lines from the `i`th on that go into a message of the
/// header at all, one behind the other.
pub open spec fn kept_entries(header: Seq<char>, lines: Seq<Seq<char>>, i: int) -> Seq<char>
    decreases lines.len() - i,
{
    if i < 0 || i >= lines.len() {
        Seq::empty()
    } else if fits_alone(header, lines[i]) {
        entry(lines[i]) + kept_entries(header, lines, i + 1)
    } else {
        kept_entries(header, lines, i + 1)
    }
}

/// What the messages hold behind their headers, one behind the other.
pub open spec fn bodies(header: Seq<char>, messages: Seq<Seq<char>>) -> Seq<char>
    decreases messages.len(),
{
    if messages.len() == 0 {
        Seq::empty()
    } else {
        messages[0].skip(header.len() as int) + bodies(header, messages.drop_first())
    }
}

/// A message that can be sent: the header and at least one entry behind
/// it, within the cap.
pub open spec fn well_formed_message(header: Seq<char>, message: Seq<char>) -> bool {
    &&& header.is_prefix_of(message)
    &&& message.len() > header.len()
    &&& byte_len(message) <= MESSAGE_BYTE_CAP
}

proof fn lemma_pack_from_messages(header: Seq<char>, lines: Seq<Seq<char>>, i: int, body: Seq<char>)
    requires
        0 <= i <= lines.len(),
        body.len() > 0 ==> byte_len(header) + byte_len(body) <= MESSAGE_BYTE_CAP,
    ensures
        forall|k: int|
            0 <= k < pack_from(header, lines, i, body).len() ==> well_formed_message(
                header,
                #[trigger] pack_from(header, lines, i, body)[k],
            ),
        bodies(header, pack_from(header, lines, i, body)) == body + kept_entries(header, lines, i),
    decreases lines.len() - i,
{
    let packed = pack_from(header, lines, i, body);
    lemma_byte_len_concat(header, body);
    lemma_empty_body(body);
    lemma_empty_body(Seq::empty());
    if i >= lines.len() {
        if body.len() > 0 {
            assert((header + body).skip(header.len() as int) =~= body);
            assert(packed.drop_first() =~= Seq::<Seq<char>>::empty());
            assert(bodies(header, packed.drop_first()) =~= Seq::<char>::empty());
            assert(bodies(header, packed) =~= body);
        }
        assert(bodies(header, packed) =~= body + kept_entries(header, lines, i));
    } else if !fits_alone(header, lines[i]) {
        lemma_pack_from_messages(header, lines, i + 1, body);
    } else if has_room(header, body, lines[i]) {
        let grown = body + entry(lines[i]);
        lemma_byte_len_concat(body, entry(lines[i]));
        lemma_pack_from_messages(header, lines, i + 1, grown);
        assert(grown + kept_entries(header, lines, i + 1) =~= body + kept_entries(
            header,
            lines,
            i,
        ));
    } else {
        let fresh = entry(lines[i]);
        let rest = pack_from(header, lines, i + 1, fresh);
        lemma_pack_from_messages(header, lines, i + 1, fresh);
        assert(body.len() > 0);
        assert((header + body).skip(header.len() as int) =~= body);
        assert(packed.drop_first() =~= rest);
        assert(bodies(header, packed) =~= body + bodies(header, rest));
        assert(body + (fresh + kept_entries(header, lines, i + 1)) =~= body + kept_entries(
            header,
            lines,
            i,
        ));
        assert forall|k: int| 0 <= k < packed.len() implies well_formed_message(
            header,
            #[trigger] packed[k],
        ) by {
            if k > 0 {
                assert(packed[k] == rest[k - 1]);
            }
        }
    }
}

/// Every message is the header with at least one entry behind it, and
/// stays within the cap.
pub proof fn lemma_messages_well_formed(header: Seq<char>, lines: Seq<Seq<char>>)
    ensures
        forall|k: int|
            0 <= k < pack(header, lines).len() ==> well_formed_message(
                header,
                #[trigger] pack(header, lines)[k],
            ),
{
    lemma_pack_from_messages(header, lines, 0, Seq::empty());
}

/// What the messages hold behind their headers is, put together, the
/// entries of the lines that go into a message at all: none is lost, none
/// comes twice, and they keep their order.
pub proof fn lemma_messages_hold_the_lines(header: Seq<char>, lines: Seq<Seq<char>>)
    ensures
        bodies(header, pack(header, lines)) == kept_entries(header, lines, 0),
{
    lemma_pack_from_messages(header, lines, 0, Seq::empty());
    assert(Seq::<char>::empty() + kept_entries(header, lines, 0) =~= kept_entries(
        header,
        lines,
        0,
    ));
}

/// Without a line that goes into a message there is no message.
pub proof fn lemma_no_lines_no_message(header: Seq<char>, lines: Seq<Seq<char>>)
    requires
        forall|i: int| 0 <= i < lines.len() ==> !fits_alone(header, #[trigger] lines[i]),
    ensures
        pack(header, lines).len() == 0,
{
    lemma_skipped_tail(header, lines, 0);
}

proof fn lemma_skipped_tail(header: Seq<char>, lines: Seq<Seq<char>>, i: int)
    requires
        0 <= i <= lines.len(),
        forall|j: int| i <= j < lines.len() ==> !fits_alone(header, #[trigger] lines[j]),
    ensures
        pack_from(header, lines, i, Seq::empty()).len() == 0,
    decreases lines.len() - i,
{
    if i < lines.len() {
        assert(!fits_alone(header, lines[i]));
        lemma_skipped_tail(header, lines, i + 1);
    }
}

/// Lines that do not go into one message together are sent as two
/// messages or more: where there is a line, every line goes into a message
/// of its own, and the header with all the entries behind it is over the
/// cap.
pub proof fn lemma_overflow_splits(header: Seq<char>, lines: Seq<Seq<char>>)
    requires
        lines.len() > 0,
        forall|i: int| 0 <= i < lines.len() ==> fits_alone(header, #[trigger] lines[i]),
        byte_len(header) + byte_len(kept_entries(header, lines, 0)) > MESSAGE_BYTE_CAP,
    ensures
        pack(header, lines).len() >= 2,
{
    let packed = pack(header, lines);
    lemma_messages_hold_the_lines(header, lines);
    lemma_messages_well_formed(header, lines);
    assert(bodies(header, Seq::<Seq<char>>::empty()) =~= Seq::<char>::empty());
    if packed.len() == 0 {
        lemma_empty_body(Seq::empty());
        assert(fits_alone(header, lines[0]));
    } else if packed.len() == 1 {
        let body = packed[0].skip(header.len() as int);
        assert(well_formed_message(header, packed[0]));
        assert(packed.drop_first() =~= Seq::<Seq<char>>::empty());
        assert(bodies(header, packed) =~= body);
        assert(packed[0] =~= header + body);
        lemma_byte_len_concat(header, body);
    }
}

/// The bytes that the lines from the `i`th on bring to the message `m`,
/// where `slots` says for each line which message it goes to. A line that
/// goes into no message of the header at all brings nothing.
pub open spec fn load(header: Seq<char>, lines: Seq<Seq<char>>, slots: Seq<int>, i: int, m: int) -> nat
    decreases lines.len() - i,
{
    if i < 0 || i >= lines.len() {
        0
    } else if slots[i] == m && fits_alone(header, lines[i]) {
        byte_len(entry(lines[i])) + load(header, lines, slots, i + 1, m)
    } else {
        load(header, lines, slots, i + 1, m)
    }
}

/// `slots` deals the lines to `n` messages: every line that can be sent
/// to one of them, in the order of the lines, and so that every message
/// that gets anything stays within the cap.
pub open spec fn deals(header: Seq<char>, lines: Seq<Seq<char>>, slots: Seq<int>, n: int) -> bool {
    &&& 0 <= n
    &&& slots.len() == lines.len()
    &&& forall|k: int|
        0 <= k < lines.len() && fits_alone(header, lines[k]) ==> 0 <= #[trigger] slots[k] < n
    &&& forall|j: int, k: int|
        0 <= j <= k < lines.len() && fits_alone(header, lines[j]) && fits_alone(header, lines[k])
            ==> #[trigger] slots[j] <= #[trigger] slots[k]
    &&& forall|m: int|
        0 <= m < n && #[trigger] load(header, lines, slots, 0, m) > 0 ==> byte_len(header) + load(
            header,
            lines,
            slots,
            0,
            m,
        ) <= MESSAGE_BYTE_CAP
}

proof fn lemma_no_load(header: Seq<char>, lines: Seq<Seq<char>>, slots: Seq<int>, i: int, m: int)
    requires
        slots.len() == lines.len(),
        0 <= i <= lines.len(),
        forall|k: int|
            i <= k < lines.len() && fits_alone(header, lines[k]) ==> #[trigger] slots[k] != m,
    ensures
        load(header, lines, slots, i, m) == 0,
    decreases lines.len() - i,
{
    if i < lines.len() {
        lemma_no_load(header, lines, slots, i + 1, m);
    }
}

proof fn lemma_greedy_keeps_ahead(
    header: Seq<char>,
    lines: Seq<Seq<char>>,
    slots: Seq<int>,
    n: int,
    i: int,
    body: Seq<char>,
    base: int,
)
    requires
        slots.len() == lines.len(),
        0 <= i <= lines.len(),
        0 <= base < n,
        forall|k: int|
            i <= k < lines.len() && fits_alone(header, lines[k]) ==> base <= #[trigger] slots[k]
                < n,
        forall|j: int, k: int|
            i <= j <= k < lines.len() && fits_alone(header, lines[j]) && fits_alone(
                header,
                lines[k],
            ) ==> #[trigger] slots[j] <= #[trigger] slots[k],
        body.len() > 0 ==> byte_len(header) + byte_len(body) <= MESSAGE_BYTE_CAP,
        load(header, lines, slots, i, base) > 0 ==> byte_len(header) + byte_len(body) + load(
            header,
            lines,
            slots,
            i,
            base,
        ) <= MESSAGE_BYTE_CAP,
        forall|m: int|
            base < m < n && #[trigger] load(header, lines, slots, i, m) > 0 ==> byte_len(header)
                + load(header, lines, slots, i, m) <= MESSAGE_BYTE_CAP,
    ensures
        pack_from(header, lines, i, body).len() <= n - base,
    decreases lines.len() - i,
{
    lemma_empty_body(body);
    lemma_empty_body(Seq::empty());
    if i < lines.len() {
        let line = lines[i];
        let s = slots[i];
        lemma_byte_len_concat(body, entry(line));
        lemma_empty_body(entry(line));
        assert(entry(line).len() > 0) by {
            reveal_strlit("\n* ");
        }
        assert forall|m: int| #[trigger]
            load(header, lines, slots, i + 1, m) <= load(header, lines, slots, i, m) by {}
        if !fits_alone(header, line) {
            assert forall|m: int|
                base < m < n && #[trigger] load(header, lines, slots, i + 1, m)
                    > 0 implies byte_len(header) + load(header, lines, slots, i + 1, m)
                <= MESSAGE_BYTE_CAP by {
                assert(load(header, lines, slots, i, m) == load(header, lines, slots, i + 1, m));
            }
            lemma_greedy_keeps_ahead(header, lines, slots, n, i + 1, body, base);
        } else if s == base {
            assert(load(header, lines, slots, i, base) > 0);
            assert(has_room(header, body, line));
            assert forall|m: int|
                base < m < n && #[trigger] load(header, lines, slots, i + 1, m)
                    > 0 implies byte_len(header) + load(header, lines, slots, i + 1, m)
                <= MESSAGE_BYTE_CAP by {
                assert(load(header, lines, slots, i, m) == load(header, lines, slots, i + 1, m));
            }
            lemma_greedy_keeps_ahead(header, lines, slots, n, i + 1, body + entry(line), base);
        } else {
            assert(base <= slots[i] < n);
            assert(load(header, lines, slots, i, s) > 0);
            assert forall|m: int|
                s <= m < n && #[trigger] load(header, lines, slots, i + 1, m)
                    > 0 implies byte_len(header) + load(header, lines, slots, i + 1, m)
                <= MESSAGE_BYTE_CAP by {
                assert(load(header, lines, slots, i, m) >= load(header, lines, slots, i + 1, m));
            }
            assert forall|k: int|
                i + 1 <= k < lines.len() && fits_alone(header, lines[k]) implies s
                <= #[trigger] slots[k] < n by {
                assert(slots[i] <= slots[k]);
            }
            if has_room(header, body, line) {
                lemma_no_load(header, lines, slots, i + 1, s - 1);
                lemma_greedy_keeps_ahead(
                    header,
                    lines,
                    slots,
                    n,
                    i + 1,
                    body + entry(line),
                    s - 1,
                );
            } else {
                lemma_greedy_keeps_ahead(header, lines, slots, n, i + 1, entry(line), s);
            }
        }
    }
}

/// No way of dealing the lines to messages, in their order and within the
/// cap, takes fewer messages than packing them does.
pub proof fn lemma_fewest_messages(
    header: Seq<char>,
    lines: Seq<Seq<char>>,
    slots: Seq<int>,
    n: int,
)
    requires
        deals(header, lines, slots, n),
    ensures
        pack(header, lines).len() <= n,
{
    if exists|k: int| 0 <= k < lines.len() && fits_alone(header, #[trigger] lines[k]) {
        let k = choose|k: int| 0 <= k < lines.len() && fits_alone(header, #[trigger] lines[k]);
        assert(0 <= slots[k] < n);
        lemma_empty_body(Seq::empty());
        assert forall|m: int|
            0 < m < n && #[trigger] load(header, lines, slots, 0, m) > 0 implies byte_len(header)
                + load(header, lines, slots, 0, m) <= MESSAGE_BYTE_CAP by {}
        lemma_greedy_keeps_ahead(header, lines, slots, n, 0, Seq::empty(), 0);
    } else {
        lemma_no_lines_no_message(header, lines);
    }
}

/// The message that packing puts each line into, for the lines from the
/// `i`th on; `done` holds the same for the lines before, `current` is the
/// message being filled.
spec fn pack_slots(
    header: Seq<char>,
    lines: Seq<Seq<char>>,
    i: int,
    body: Seq<char>,
    current: int,
    done: Seq<int>,
) -> Seq<int>
    decreases lines.len() - i,
{
    if i < 0 || i >= lines.len() {
        done
    } else if !fits_alone(header, lines[i]) {
        pack_slots(header, lines, i + 1, body, current, done.push(current))
    } else if has_room(header, body, lines[i]) {
        pack_slots(header, lines, i + 1, body + entry(lines[i]), current, done.push(current))
    } else {
        pack_slots(header, lines, i + 1, entry(lines[i]), current + 1, done.push(current + 1))
    }
}

proof fn lemma_pack_slots(
    header: Seq<char>,
    lines: Seq<Seq<char>>,
    i: int,
    body: Seq<char>,
    current: int,
    done: Seq<int>,
)
    requires
        0 <= i <= lines.len(),
        done.len() == i,
        body.len() > 0 ==> byte_len(header) + byte_len(body) <= MESSAGE_BYTE_CAP,
    ensures
        ({
            let slots = pack_slots(header, lines, i, body, current, done);
            let packed = pack_from(header, lines, i, body);
            &&& slots.len() == lines.len()
            &&& forall|k: int| 0 <= k < i ==> slots[k] == done[k]
            &&& forall|k: int|
                i <= k < lines.len() && fits_alone(header, lines[k]) ==> current
                    <= #[trigger] slots[k] < current + packed.len()
            &&& forall|j: int, k: int|
                i <= j <= k < lines.len() && fits_alone(header, lines[j]) && fits_alone(
                    header,
                    lines[k],
                ) ==> #[trigger] slots[j] <= #[trigger] slots[k]
            &&& body.len() > 0 || load(header, lines, slots, i, current) > 0 ==> byte_len(header)
                + byte_len(body) + load(header, lines, slots, i, current) <= MESSAGE_BYTE_CAP
            &&& forall|m: int|
                m > current && #[trigger] load(header, lines, slots, i, m) > 0 ==> byte_len(
                    header,
                ) + load(header, lines, slots, i, m) <= MESSAGE_BYTE_CAP
            &&& body.len() > 0 ==> packed.len() >= 1
        }),
    decreases lines.len() - i,
{
    let slots = pack_slots(header, lines, i, body, current, done);
    lemma_empty_body(body);
    lemma_empty_body(Seq::empty());
    if i < lines.len() {
        let line = lines[i];
        lemma_byte_len_concat(body, entry(line));
        lemma_empty_body(entry(line));
        assert(entry(line).len() > 0) by {
            reveal_strlit("\n* ");
        }
        if !fits_alone(header, line) {
            lemma_pack_slots(header, lines, i + 1, body, current, done.push(current));
            assert(slots[i] == done.push(current)[i]);
            assert forall|m: int| #[trigger]
                load(header, lines, slots, i, m) == load(header, lines, slots, i + 1, m) by {}
        } else if has_room(header, body, line) {
            let grown = body + entry(line);
            lemma_pack_slots(header, lines, i + 1, grown, current, done.push(current));
            assert(slots[i] == done.push(current)[i]);
            assert forall|m: int| m > current implies #[trigger] load(header, lines, slots, i, m)
                == load(header, lines, slots, i + 1, m) by {}
        } else {
            let fresh = entry(line);
            lemma_pack_slots(header, lines, i + 1, fresh, current + 1, done.push(current + 1));
            assert(slots[i] == done.push(current + 1)[i]);
            lemma_no_load(header, lines, slots, i, current);
            assert forall|m: int| m > current + 1 implies #[trigger] load(
                header,
                lines,
                slots,
                i,
                m,
            ) == load(header, lines, slots, i + 1, m) by {}
        }
    }
}

/// Packing is itself a way of dealing the lines to messages, in their order
/// and within the cap. With [`lemma_fewest_messages`] this makes the number
/// of messages that packing takes the least that will do.
pub proof fn lemma_packing_deals(header: Seq<char>, lines: Seq<Seq<char>>)
    ensures
        exists|slots: Seq<int>| deals(header, lines, slots, pack(header, lines).len() as int),
{
    let slots = pack_slots(header, lines, 0, Seq::empty(), 0, Seq::empty());
    lemma_pack_slots(header, lines, 0, Seq::empty(), 0, Seq::empty());
    lemma_empty_body(Seq::empty());
    assert(deals(header, lines, slots, pack(header, lines).len() as int));
}

/// A text takes no bytes just when it is empty.
pub proof fn lemma_empty_body(body: Seq<char>)
    ensures
        byte_len(body) == 0 <==> body.len() == 0,
{
    if body.len() > 0 {
        vstd::utf8::encode_utf8_first_scalar(body);
    }
}

} // verus!
