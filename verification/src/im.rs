//! Data of the instant-messaging demo and the pure helpers its screens use:
//! a conversation's latest preview and the clock time of a timestamp.

pub mod seed;

use std::collections::HashMap;
use std::rc::Rc;
use vstd::prelude::*;
use vstd::string::*;

verus! {

/// Identifier of a conversation.
#[derive(Debug, Clone, Copy, PartialEq, Eq, Hash, Structural)]
pub struct ConvId(pub u32);

/// Who wrote a message.
#[derive(Debug, Clone, Copy, PartialEq, Eq, Structural)]
pub enum MessageAuthor {
    Them,
    Me,
}

/// A chat message.
#[derive(Debug, Clone)]
pub struct ChatMessage {
    pub author: MessageAuthor,
    pub text: String,
    /// Unix seconds.
    pub timestamp: u64,
}

/// A conversation in the list, with the preview it was seeded with.
#[derive(Debug, Clone)]
pub struct Conversation {
    pub id: ConvId,
    pub name: String,
    pub avatar_bytes: Rc<[u8]>,
    pub unread_count: u32,
    pub last_preview: String,
    pub last_timestamp: u64,
}

/// The (preview, timestamp) shown for `conv`: those of the last message of
/// the conversation in `messages` (keyed by conversation id), or the
/// conversation's own when it has no messages there.
pub open spec fn latest_preview_spec(
    conv: &Conversation,
    messages: Map<u32, Vec<ChatMessage>>,
) -> (Seq<char>, u64) {
    if messages.dom().contains(conv.id.0) && messages[conv.id.0]@.len() > 0 {
        let last = messages[conv.id.0]@.last();
        (last.text@, last.timestamp)
    } else {
        (conv.last_preview@, conv.last_timestamp)
    }
}

/// Derive the (preview, timestamp) for a conversation's row from the latest
/// message in the map, falling back to the conversation's seed values when
/// no messages exist (or the conversation is absent from the map).
pub fn latest_preview(conv: &Conversation, messages: &HashMap<u32, Vec<ChatMessage>>) -> (res: (String, u64))
    ensures
        (res.0@, res.1) == latest_preview_spec(conv, messages@),
{
    match messages.get(&conv.id.0) {
        Some(v) => {
            let n = v.len();
            if n > 0 {
                let m = &v[n - 1];
                return (m.text.clone(), m.timestamp);
            }
        },
        None => {},
    }
    (conv.last_preview.clone(), conv.last_timestamp)
}

/// The decimal digit `d` (below ten) as a character.
pub open spec fn digit_char(d: nat) -> char {
    (48 + d) as char
}

/// `n` (below a hundred) as two decimal digits, with a leading zero.
pub open spec fn two_digits(n: nat) -> Seq<char> {
    seq![digit_char(n / 10), digit_char(n % 10)]
}

/// The wall-clock time (UTC) of a Unix timestamp, as `HH:MM`.
pub open spec fn clock_time(ts: nat) -> Seq<char> {
    let secs = ts % 86400;
    two_digits(secs / 3600) + seq![':'] + two_digits((secs % 3600) / 60)
}

/// The decimal digit `d` (below ten) as a one-character string.
fn digit_str(d: u64) -> (res: &'static str)
    requires
        d < 10,
    ensures
        res@ == seq![digit_char(d as nat)],
{
    match d {
        0 => {
            proof { reveal_strlit("0"); }
            "0"
        },
        1 => {
            proof { reveal_strlit("1"); }
            "1"
        },
        2 => {
            proof { reveal_strlit("2"); }
            "2"
        },
        3 => {
            proof { reveal_strlit("3"); }
            "3"
        },
        4 => {
            proof { reveal_strlit("4"); }
            "4"
        },
        5 => {
            proof { reveal_strlit("5"); }
            "5"
        },
        6 => {
            proof { reveal_strlit("6"); }
            "6"
        },
        7 => {
            proof { reveal_strlit("7"); }
            "7"
        },
        8 => {
            proof { reveal_strlit("8"); }
            "8"
        },
        _ => {
            proof { reveal_strlit("9"); }
            "9"
        },
    }
}

/// `n` (below a hundred) as two decimal digits, with a leading zero.
fn push_two_digits(out: &mut String, n: u64)
    requires
        n < 100,
    ensures
        final(out)@ == old(out)@ + two_digits(n as nat),
{
    out.append(digit_str(n / 10));
    out.append(digit_str(n % 10));
}

/// The wall-clock time (UTC) of a Unix timestamp, as `HH:MM`.
pub fn format_timestamp(ts: u64) -> (res: String)
    ensures
        res@ == clock_time(ts as nat),
{
    let secs = ts % 86400;
    let hours = secs / 3600;
    let mins = (secs % 3600) / 60;
    let mut out = String::new();
    push_two_digits(&mut out, hours);
    proof { reveal_strlit(":"); }
    out.append(":");
    push_two_digits(&mut out, mins);
    out
}

} // verus!
