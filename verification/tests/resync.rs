use fizz::render::generate_alert_messages;
use fizz::resync::{delete_messages, is_stale, ChannelMessage};

const BOT: u64 = 99;

fn message(id: u64, author: u64, ephemeral: bool, content: &str) -> ChannelMessage {
    ChannelMessage { id, author, ephemeral, content: content.to_string() }
}

/// A channel as the chat platform keeps it: a delivery deletes what the
/// library picks, listing again as long as it says so, and posts the fresh
/// messages.
struct Channel {
    messages: Vec<ChannelMessage>,
    next_id: u64,
    listings: usize,
}

impl Channel {
    fn deliver(&mut self, header: &str, lines: &Vec<String>) {
        loop {
            self.listings += 1;
            let step = delete_messages(&self.messages, BOT, header);
            self.messages.retain(|m| !step.delete.contains(&m.id));
            if !step.list_again {
                break;
            }
        }
        for text in generate_alert_messages(&header.to_string(), lines) {
            self.messages.push(message(self.next_id, BOT, false, &text));
            self.next_id += 1;
        }
    }

    fn contents(&self) -> Vec<String> {
        self.messages.iter().map(|m| m.content.clone()).collect()
    }
}

#[test]
fn stale_messages_are_the_bots_own_under_the_header() {
    let header = "H <@1>";
    assert!(is_stale(&message(1, BOT, false, "H <@1>\n* one"), BOT, header));
    assert!(is_stale(&message(1, BOT, false, "H <@1>"), BOT, header));
    // Written by someone else.
    assert!(!is_stale(&message(1, 5, false, "H <@1>\n* one"), BOT, header));
    // Shown to one user only.
    assert!(!is_stale(&message(1, BOT, true, "H <@1>\n* one"), BOT, header));
    // Under another header, or for another user.
    assert!(!is_stale(&message(1, BOT, false, "G <@1>\n* one"), BOT, header));
    assert!(!is_stale(&message(1, BOT, false, "H <@12>\n* one"), BOT, header));
    assert!(!is_stale(&message(1, BOT, false, "H <@"), BOT, header));
    assert!(!is_stale(&message(1, BOT, false, " H <@1>"), BOT, header));
    assert!(!is_stale(&message(1, BOT, false, ""), BOT, header));
}

#[test]
fn listing_picks_the_stale_messages_in_order() {
    let listing = vec![
        message(10, BOT, false, "H <@1>\n* a"),
        message(11, 5, false, "hello"),
        message(12, BOT, false, "H <@2>\n* a"),
        message(13, BOT, true, "H <@1>\n* a"),
        message(14, BOT, false, "H <@1>\n* b"),
    ];
    let step = delete_messages(&listing, BOT, "H <@1>");
    assert_eq!(step.delete, vec![10, 14]);
    assert!(step.list_again);
}

#[test]
fn listing_without_stale_messages_ends_the_resync() {
    let step = delete_messages(&vec![], BOT, "H");
    assert!(step.delete.is_empty());
    assert!(!step.list_again);
    let listing = vec![message(11, 5, false, "H"), message(12, BOT, false, "G")];
    let step = delete_messages(&listing, BOT, "H");
    assert!(step.delete.is_empty());
    assert!(!step.list_again);
}

#[test]
fn delivering_twice_leaves_one_set_of_alerts() {
    let header = ":notepad_spiral: PRs for review <@1>";
    let lines: Vec<String> = (0..30).map(|i| format!("item {} {}", i, "x".repeat(150))).collect();
    let mut channel = Channel {
        messages: vec![
            message(1, 5, false, "good morning"),
            message(2, BOT, false, ":notepad_spiral: PRs for review <@1>\n* an old item"),
            message(3, BOT, false, ":notepad_spiral: PRs for review <@2>\n* for someone else"),
            message(4, BOT, true, ":notepad_spiral: PRs for review <@1>\n* private"),
            message(5, BOT, false, ":notepad_spiral: PRs for review <@1>\n* another old item"),
        ],
        next_id: 6,
        listings: 0,
    };
    channel.deliver(header, &lines);
    let once = channel.contents();
    channel.deliver(header, &lines);
    let twice = channel.contents();
    assert_eq!(once, twice);
    let fresh = generate_alert_messages(&header.to_string(), &lines);
    assert!(fresh.len() >= 2);
    let mut expected = vec![
        "good morning".to_string(),
        ":notepad_spiral: PRs for review <@2>\n* for someone else".to_string(),
        ":notepad_spiral: PRs for review <@1>\n* private".to_string(),
    ];
    expected.extend(fresh.clone());
    assert_eq!(twice, expected);
    // Every alert under the header that is left is a fresh one, once.
    let live: Vec<String> = channel
        .messages
        .iter()
        .filter(|m| is_stale(m, BOT, header))
        .map(|m| m.content.clone())
        .collect();
    assert_eq!(live, fresh);
}

#[test]
fn delivering_nothing_clears_the_old_alerts() {
    let header = "H <@1>";
    let mut channel = Channel {
        messages: vec![message(1, BOT, false, "H <@1>\n* old"), message(2, 5, false, "hi")],
        next_id: 3,
        listings: 0,
    };
    channel.deliver(header, &vec![]);
    assert_eq!(channel.contents(), vec!["hi".to_string()]);
    assert_eq!(channel.listings, 2);
    channel.deliver(header, &vec![]);
    assert_eq!(channel.contents(), vec!["hi".to_string()]);
    assert_eq!(channel.listings, 3);
}
