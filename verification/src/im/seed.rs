//! The demo's seed data: the conversation list, the messages behind the
//! first conversations, the contacts and the profile.
//!
//! Avatars are PNG images that the caller renders from
//! [`avatar_colors`] (and [`me_avatar_color`] for the profile) and hands in,
//! one per color, in the same order.

use std::collections::HashMap;
use std::rc::Rc;
use vstd::prelude::*;
use vstd::string::*;

use crate::im::{latest_preview_spec, ChatMessage, ConvId, Conversation, MessageAuthor};

verus! {

/// The number of avatar colors that conversations and contacts draw on.
pub const AVATAR_COUNT: usize = 21;

/// A contact in the address book.
#[derive(Debug, Clone)]
pub struct Contact {
    pub id: u32,
    pub name: String,
    pub avatar_bytes: Rc<[u8]>,
    pub status: String,
}

/// The user's own profile.
#[derive(Debug, Clone)]
pub struct Profile {
    pub name: String,
    pub email: String,
    pub avatar_bytes: Rc<[u8]>,
}

/// `Rc::clone`: another pointer to the same bytes.
#[verifier::external_body]
fn share_bytes(bytes: &Rc<[u8]>) -> (res: Rc<[u8]>)
    ensures
        res == *bytes,
{
    Rc::clone(bytes)
}

/// The RGB colors of the avatars, one per person or group, in the order in
/// which the avatar images are handed to the seed functions.
pub open spec fn avatar_color_rows() -> Seq<(u8, u8, u8)> {
    seq![
        (120u8, 180u8, 255u8),
        (180u8, 220u8, 120u8),
        (220u8, 160u8, 200u8),
        (255u8, 200u8, 120u8),
        (200u8, 200u8, 240u8),
        (180u8, 220u8, 180u8),
        (220u8, 180u8, 140u8),
        (140u8, 200u8, 220u8),
        (240u8, 160u8, 180u8),
        (200u8, 240u8, 160u8),
        (160u8, 160u8, 200u8),
        (240u8, 220u8, 140u8),
        (180u8, 140u8, 220u8),
        (140u8, 240u8, 200u8),
        (240u8, 180u8, 200u8),
        (180u8, 200u8, 240u8),
        (220u8, 140u8, 160u8),
        (160u8, 220u8, 140u8),
        (200u8, 140u8, 240u8),
        (140u8, 180u8, 140u8),
        (240u8, 200u8, 180u8)
    ]
}

/// The avatar colors of [`avatar_color_rows`].
pub fn avatar_colors() -> (res: Vec<(u8, u8, u8)>)
    ensures
        res@ == avatar_color_rows(),
{
    let mut res: Vec<(u8, u8, u8)> = Vec::new();
    res.push((120, 180, 255));
    res.push((180, 220, 120));
    res.push((220, 160, 200));
    res.push((255, 200, 120));
    res.push((200, 200, 240));
    res.push((180, 220, 180));
    res.push((220, 180, 140));
    res.push((140, 200, 220));
    res.push((240, 160, 180));
    res.push((200, 240, 160));
    res.push((160, 160, 200));
    res.push((240, 220, 140));
    res.push((180, 140, 220));
    res.push((140, 240, 200));
    res.push((240, 180, 200));
    res.push((180, 200, 240));
    res.push((220, 140, 160));
    res.push((160, 220, 140));
    res.push((200, 140, 240));
    res.push((140, 180, 140));
    res.push((240, 200, 180));
    assert(res@ =~= avatar_color_rows());
    res
}

/// The color of the user's own avatar, distinct from every other one.
pub fn me_avatar_color() -> (res: (u8, u8, u8))
    ensures
        res == (130u8, 100u8, 200u8),
{
    (130, 100, 200)
}

/// The seeded conversations, in list order: name, unread count, last
/// preview, its timestamp, and the index of the avatar. Conversation `i`
/// has the id `i + 1`.
pub open spec fn conversation_rows() -> Seq<(Seq<char>, u32, Seq<char>, u64, int)> {
    seq![
        ("Alice"@, 2u32, "See you tomorrow!"@, 1732347520u64, 0int),
        ("Bob"@, 0u32, "Got it, thanks"@, 1732347050u64, 1int),
        ("Group Chat"@, 5u32, "Charlie: sounds good"@, 1732346700u64, 2int),
        ("Charlie"@, 0u32, "Let me check and get back"@, 1732345000u64, 3int),
        ("Diana"@, 0u32, "Meeting at 3pm"@, 1732340000u64, 4int),
        ("Eve"@, 1u32, "Did you see the news?"@, 1732339000u64, 5int),
        ("Frank"@, 0u32, "Lunch on Friday?"@, 1732338000u64, 6int),
        ("Grace"@, 3u32, "I sent you the docs"@, 1732337000u64, 7int),
        ("Heidi"@, 0u32, "Thanks for the help!"@, 1732336000u64, 8int),
        ("Ivan"@, 0u32, "On my way"@, 1732335000u64, 9int),
        ("Judy"@, 12u32, "Charlie: please review the PR"@, 1732334000u64, 10int),
        ("Design Team"@, 0u32, "Mallory: new mockups are ready"@, 1732333000u64, 11int),
        ("Niaj"@, 0u32, "Sounds good to me"@, 1732332000u64, 12int),
        ("Oscar"@, 4u32, "Can we move the call?"@, 1732331000u64, 13int),
        ("Peggy"@, 0u32, "Happy birthday! \u{1f389}"@, 1732330000u64, 14int),
        ("Trent"@, 0u32, "Reviewing now, give me 10"@, 1732329000u64, 15int),
        ("Walter"@, 2u32, "Where are you?"@, 1732328000u64, 16int),
        ("Wendy"@, 0u32, "OK great, talk soon"@, 1732327000u64, 17int),
        ("Xander"@, 0u32, "I'll handle it tomorrow"@, 1732326000u64, 20int),
        ("Yuki"@, 7u32, "Charlie: deploy is green"@, 1732325000u64, 19int),
        ("Zara"@, 0u32, "Forwarded you the email"@, 1732310000u64, 18int),
        ("Weekend Hike"@, 0u32, "Grace: weather looks great"@, 1732300000u64, 7int),
        ("Mom"@, 1u32, "Call me when you can"@, 1732200000u64, 14int),
        ("Book Club"@, 0u32, "Next chapter is ch. 7"@, 1732100000u64, 11int),
        ("Support"@, 0u32, "Your ticket #4821 was resolved"@, 1732000000u64, 13int)
    ]
}

/// `c` is the seeded conversation at position `i`, with its avatar taken
/// from `avatars`.
pub open spec fn is_seeded_conversation(c: Conversation, i: int, avatars: Seq<Rc<[u8]>>) -> bool {
    let row = conversation_rows()[i];
    &&& c.id.0 == i + 1
    &&& c.name@ == row.0
    &&& c.unread_count == row.1
    &&& c.last_preview@ == row.2
    &&& c.last_timestamp == row.3
    &&& c.avatar_bytes == avatars[row.4]
}

/// Append the conversation at position `i` of the seed.
fn push_conversation(
    out: &mut Vec<Conversation>,
    avatars: &Vec<Rc<[u8]>>,
    i: u32,
    name: &str,
    unread_count: u32,
    last_preview: &str,
    last_timestamp: u64,
    avatar: usize,
)
    requires
        old(out)@.len() == i,
        i < 25,
        avatars@.len() == AVATAR_COUNT,
        conversation_rows()[i as int] == (name@, unread_count, last_preview@, last_timestamp, avatar as int),
    ensures
        final(out)@.len() == old(out)@.len() + 1,
        forall|j: int| 0 <= j < old(out)@.len() ==> final(out)@[j] == old(out)@[j],
        is_seeded_conversation(final(out)@[i as int], i as int, avatars@),
{
    assert(avatar < 21);
    out.push(
        Conversation {
            id: ConvId(i + 1),
            name: String::from_str(name),
            avatar_bytes: share_bytes(&avatars[avatar]),
            unread_count,
            last_preview: String::from_str(last_preview),
            last_timestamp,
        },
    );
}

/// The seeded conversation list: twenty-five conversations with the ids
/// `1` to `25`, as [`conversation_rows`] gives them. `avatars` holds one
/// avatar image per color of [`avatar_colors`], in that order.
#[verifier::rlimit(50)]
pub fn seed_conversations(avatars: &Vec<Rc<[u8]>>) -> (res: Vec<Conversation>)
    requires
        avatars@.len() == AVATAR_COUNT,
    ensures
        res@.len() == 25,
        forall|i: int| 0 <= i < 25 ==> is_seeded_conversation(#[trigger] res@[i], i, avatars@),
{
    let mut res: Vec<Conversation> = Vec::new();
    push_conversation(&mut res, avatars, 0, "Alice", 2, "See you tomorrow!", 1732347520, 0);
    push_conversation(&mut res, avatars, 1, "Bob", 0, "Got it, thanks", 1732347050, 1);
    push_conversation(&mut res, avatars, 2, "Group Chat", 5, "Charlie: sounds good", 1732346700, 2);
    push_conversation(&mut res, avatars, 3, "Charlie", 0, "Let me check and get back", 1732345000, 3);
    push_conversation(&mut res, avatars, 4, "Diana", 0, "Meeting at 3pm", 1732340000, 4);
    push_conversation(&mut res, avatars, 5, "Eve", 1, "Did you see the news?", 1732339000, 5);
    push_conversation(&mut res, avatars, 6, "Frank", 0, "Lunch on Friday?", 1732338000, 6);
    push_conversation(&mut res, avatars, 7, "Grace", 3, "I sent you the docs", 1732337000, 7);
    push_conversation(&mut res, avatars, 8, "Heidi", 0, "Thanks for the help!", 1732336000, 8);
    push_conversation(&mut res, avatars, 9, "Ivan", 0, "On my way", 1732335000, 9);
    push_conversation(&mut res, avatars, 10, "Judy", 12, "Charlie: please review the PR", 1732334000, 10);
    push_conversation(&mut res, avatars, 11, "Design Team", 0, "Mallory: new mockups are ready", 1732333000, 11);
    push_conversation(&mut res, avatars, 12, "Niaj", 0, "Sounds good to me", 1732332000, 12);
    push_conversation(&mut res, avatars, 13, "Oscar", 4, "Can we move the call?", 1732331000, 13);
    push_conversation(&mut res, avatars, 14, "Peggy", 0, "Happy birthday! \u{1f389}", 1732330000, 14);
    push_conversation(&mut res, avatars, 15, "Trent", 0, "Reviewing now, give me 10", 1732329000, 15);
    push_conversation(&mut res, avatars, 16, "Walter", 2, "Where are you?", 1732328000, 16);
    push_conversation(&mut res, avatars, 17, "Wendy", 0, "OK great, talk soon", 1732327000, 17);
    push_conversation(&mut res, avatars, 18, "Xander", 0, "I'll handle it tomorrow", 1732326000, 20);
    push_conversation(&mut res, avatars, 19, "Yuki", 7, "Charlie: deploy is green", 1732325000, 19);
    push_conversation(&mut res, avatars, 20, "Zara", 0, "Forwarded you the email", 1732310000, 18);
    push_conversation(&mut res, avatars, 21, "Weekend Hike", 0, "Grace: weather looks great", 1732300000, 7);
    push_conversation(&mut res, avatars, 22, "Mom", 1, "Call me when you can", 1732200000, 14);
    push_conversation(&mut res, avatars, 23, "Book Club", 0, "Next chapter is ch. 7", 1732100000, 11);
    push_conversation(&mut res, avatars, 24, "Support", 0, "Your ticket #4821 was resolved", 1732000000, 13);
    res
}

/// The seeded messages of each conversation, oldest first: author, text and
/// timestamp. Conversations `1` to `3` have messages; the rest start empty.
pub open spec fn message_rows(conv: u32) -> Seq<(MessageAuthor, Seq<char>, u64)> {
    if conv == 1 {
        seq![
            (MessageAuthor::Them, "Hey! Are we still on for tomorrow?"@, 1732347000u64),
            (MessageAuthor::Me, "Yes, definitely!"@, 1732347300u64),
            (MessageAuthor::Them, "See you tomorrow!"@, 1732347520u64)
        ]
    } else if conv == 2 {
        seq![
            (MessageAuthor::Them, "Did you get the file?"@, 1732346800u64),
            (MessageAuthor::Me, "Got it, thanks"@, 1732347050u64)
        ]
    } else if conv == 3 {
        seq![
            (MessageAuthor::Them, "Charlie: sounds good"@, 1732346700u64)
        ]
    } else {
        Seq::empty()
    }
}

/// `ms` are the messages that `rows` describe, in order.
pub open spec fn messages_are(ms: Seq<ChatMessage>, rows: Seq<(MessageAuthor, Seq<char>, u64)>) -> bool {
    &&& ms.len() == rows.len()
    &&& forall|j: int|
        0 <= j < ms.len() ==> {
            &&& (#[trigger] ms[j]).author == rows[j].0
            &&& ms[j].text@ == rows[j].1
            &&& ms[j].timestamp == rows[j].2
        }
}

/// A message with the given author, text and timestamp.
fn message(author: MessageAuthor, text: &str, timestamp: u64) -> (m: ChatMessage)
    ensures
        m.author == author,
        m.text@ == text@,
        m.timestamp == timestamp,
{
    ChatMessage { author, text: String::from_str(text), timestamp }
}

/// The seeded message map: every conversation id from `1` to `25` is a key,
/// and each holds the messages of [`message_rows`].
pub fn seed_messages() -> (res: HashMap<u32, Vec<ChatMessage>>)
    ensures
        res@.dom() == Set::new(|k: u32| 1 <= k <= 25),
        forall|k: u32| 1 <= k <= 25 ==> messages_are(#[trigger] res@[k]@, message_rows(k)),
{
    broadcast use vstd::std_specs::hash::group_hash_axioms;

    let mut res: HashMap<u32, Vec<ChatMessage>> = HashMap::new();
    let mut ms: Vec<ChatMessage> = Vec::new();
    ms.push(message(MessageAuthor::Them, "Hey! Are we still on for tomorrow?", 1732347000));
    ms.push(message(MessageAuthor::Me, "Yes, definitely!", 1732347300));
    ms.push(message(MessageAuthor::Them, "See you tomorrow!", 1732347520));
    assert(messages_are(ms@, message_rows(1)));
    res.insert(1, ms);
    let mut ms: Vec<ChatMessage> = Vec::new();
    ms.push(message(MessageAuthor::Them, "Did you get the file?", 1732346800));
    ms.push(message(MessageAuthor::Me, "Got it, thanks", 1732347050));
    assert(messages_are(ms@, message_rows(2)));
    res.insert(2, ms);
    let mut ms: Vec<ChatMessage> = Vec::new();
    ms.push(message(MessageAuthor::Them, "Charlie: sounds good", 1732346700));
    assert(messages_are(ms@, message_rows(3)));
    res.insert(3, ms);
    let mut id: u32 = 4;
    while id <= 25
        invariant
            4 <= id <= 26,
            res@.dom() == Set::new(|k: u32| 1 <= k < id),
            forall|k: u32| 1 <= k < id ==> messages_are(#[trigger] res@[k]@, message_rows(k)),
        decreases 26 - id,
    {
        res.insert(id, Vec::new());
        assert(res@.dom() =~= Set::new(|k: u32| 1 <= k < id + 1));
        id = id + 1;
    }
    assert(res@.dom() =~= Set::new(|k: u32| 1 <= k <= 25));
    res
}

/// The seeded contacts, in list order: id, name, avatar index and status.
pub open spec fn contact_rows() -> Seq<(u32, Seq<char>, int, Seq<char>)> {
    seq![
        (1u32, "Alice"@, 0int, "Online"@),
        (2u32, "Bob"@, 1int, "Last seen 10:00"@),
        (3u32, "Charlie"@, 3int, "Online"@),
        (4u32, "Diana"@, 4int, "Away"@),
        (5u32, "Eve"@, 5int, "Offline"@),
        (6u32, "Frank"@, 6int, "Online"@),
        (7u32, "Grace"@, 7int, "Last seen yesterday"@),
        (8u32, "Heidi"@, 8int, "Online"@)
    ]
}

/// `c` is the seeded contact at position `i`, with its avatar taken from
/// `avatars`.
pub open spec fn is_seeded_contact(c: Contact, i: int, avatars: Seq<Rc<[u8]>>) -> bool {
    let row = contact_rows()[i];
    &&& c.id == row.0
    &&& c.name@ == row.1
    &&& c.avatar_bytes == avatars[row.2]
    &&& c.status@ == row.3
}

/// Append the contact at position `i` of the seed.
fn push_contact(out: &mut Vec<Contact>, avatars: &Vec<Rc<[u8]>>, id: u32, name: &str, avatar: usize, status: &str)
    requires
        1 <= id <= 8,
        old(out)@.len() == id - 1,
        avatars@.len() == AVATAR_COUNT,
        contact_rows()[id - 1] == (id, name@, avatar as int, status@),
    ensures
        final(out)@.len() == old(out)@.len() + 1,
        forall|j: int| 0 <= j < old(out)@.len() ==> final(out)@[j] == old(out)@[j],
        is_seeded_contact(final(out)@[id - 1], id - 1, avatars@),
{
    assert(avatar < 21);
    out.push(
        Contact {
            id,
            name: String::from_str(name),
            avatar_bytes: share_bytes(&avatars[avatar]),
            status: String::from_str(status),
        },
    );
}

/// The seeded contacts: eight of them, as [`contact_rows`] gives them.
pub fn seed_contacts(avatars: &Vec<Rc<[u8]>>) -> (res: Vec<Contact>)
    requires
        avatars@.len() == AVATAR_COUNT,
    ensures
        res@.len() == 8,
        forall|i: int| 0 <= i < 8 ==> is_seeded_contact(#[trigger] res@[i], i, avatars@),
{
    let mut res: Vec<Contact> = Vec::new();
    push_contact(&mut res, avatars, 1, "Alice", 0, "Online");
    push_contact(&mut res, avatars, 2, "Bob", 1, "Last seen 10:00");
    push_contact(&mut res, avatars, 3, "Charlie", 3, "Online");
    push_contact(&mut res, avatars, 4, "Diana", 4, "Away");
    push_contact(&mut res, avatars, 5, "Eve", 5, "Offline");
    push_contact(&mut res, avatars, 6, "Frank", 6, "Online");
    push_contact(&mut res, avatars, 7, "Grace", 7, "Last seen yesterday");
    push_contact(&mut res, avatars, 8, "Heidi", 8, "Online");
    res
}

/// The user's profile, with the avatar image rendered from
/// [`me_avatar_color`].
pub fn seed_profile(me_avatar: Rc<[u8]>) -> (res: Profile)
    ensures
        res.name@ == "Alice"@,
        res.email@ == "alice@example.com"@,
        res.avatar_bytes == me_avatar,
{
    Profile { name: String::from_str("Alice"), email: String::from_str("alice@example.com"), avatar_bytes: me_avatar }
}

/// The seeded messages agree with the seeded list: for every seeded
/// conversation, the preview and timestamp derived from the message map are
/// the ones the conversation was seeded with.
pub proof fn lemma_seed_previews_agree(
    convs: Seq<Conversation>,
    messages: Map<u32, Vec<ChatMessage>>,
    avatars: Seq<Rc<[u8]>>,
)
    requires
        convs.len() == 25,
        forall|i: int| 0 <= i < 25 ==> is_seeded_conversation(#[trigger] convs[i], i, avatars),
        messages.dom() == Set::new(|k: u32| 1 <= k <= 25),
        forall|k: u32| 1 <= k <= 25 ==> messages_are(#[trigger] messages[k]@, message_rows(k)),
    ensures
        forall|i: int|
            0 <= i < 25 ==> latest_preview_spec(&#[trigger] convs[i], messages) == (
                conversation_rows()[i].2,
                conversation_rows()[i].3,
            ),
{
    assert forall|i: int| 0 <= i < 25 implies latest_preview_spec(&#[trigger] convs[i], messages) == (
        conversation_rows()[i].2,
        conversation_rows()[i].3,
    ) by {
        let k = (i + 1) as u32;
        assert(is_seeded_conversation(convs[i], i, avatars));
        assert(messages_are(messages[k]@, message_rows(k)));
        assert(messages.dom().contains(k));
    }
}

} // verus!
