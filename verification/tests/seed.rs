use std::rc::Rc;

use vexo::im::seed::{
    avatar_colors, me_avatar_color, seed_contacts, seed_conversations, seed_messages, seed_profile,
    AVATAR_COUNT,
};
use vexo::im::{latest_preview, MessageAuthor};

/// Stand-in avatar images: one distinct byte string per color.
fn avatars() -> Vec<Rc<[u8]>> {
    avatar_colors().iter().map(|&(r, g, b)| Rc::from(vec![r, g, b])).collect()
}

#[test]
fn test_seed_has_twenty_five_conversations() {
    let convs = seed_conversations(&avatars());
    assert_eq!(convs.len(), 25);
}

#[test]
fn test_seed_messages_for_alice() {
    let map = seed_messages();
    let msgs = map.get(&1).expect("Alice has messages");
    assert_eq!(msgs.len(), 3);
}

#[test]
fn test_seed_contacts_count() {
    let contacts = seed_contacts(&avatars());
    assert_eq!(contacts.len(), 8);
}

#[test]
fn seed_conversations_have_ids_and_shared_avatars() {
    let avatars = avatars();
    assert_eq!(avatars.len(), AVATAR_COUNT);
    let convs = seed_conversations(&avatars);
    for (i, c) in convs.iter().enumerate() {
        assert_eq!(c.id.0 as usize, i + 1);
    }
    assert_eq!(convs[0].name, "Alice");
    assert_eq!(convs[0].unread_count, 2);
    assert_eq!(convs[10].unread_count, 12);
    assert_eq!(convs[14].last_preview, "Happy birthday! \u{1f389}");
    assert_eq!(convs[24].last_preview, "Your ticket #4821 was resolved");
    assert_eq!(convs[24].last_timestamp, 1732000000);
    // "Weekend Hike" reuses Grace's avatar; "Xander" takes the last color.
    assert!(Rc::ptr_eq(&convs[21].avatar_bytes, &avatars[7]));
    assert!(Rc::ptr_eq(&convs[18].avatar_bytes, &avatars[20]));
}

#[test]
fn seed_messages_cover_every_conversation_and_agree_with_previews() {
    let convs = seed_conversations(&avatars());
    let map = seed_messages();
    assert_eq!(map.len(), 25);
    for id in 1..=25u32 {
        assert!(map.contains_key(&id));
    }
    assert_eq!(map[&2][0].author, MessageAuthor::Them);
    assert_eq!(map[&2][1].text, "Got it, thanks");
    assert!(map[&4].is_empty());
    for c in &convs {
        let (preview, ts) = latest_preview(c, &map);
        assert_eq!(preview, c.last_preview);
        assert_eq!(ts, c.last_timestamp);
    }
}

#[test]
fn seed_contacts_and_profile() {
    let avatars = avatars();
    let contacts = seed_contacts(&avatars);
    assert_eq!(contacts[1].status, "Last seen 10:00");
    assert_eq!(contacts[2].name, "Charlie");
    assert!(Rc::ptr_eq(&contacts[2].avatar_bytes, &avatars[3]));
    let me: Rc<[u8]> = Rc::from(vec![me_avatar_color().0]);
    let profile = seed_profile(me.clone());
    assert_eq!(profile.name, "Alice");
    assert_eq!(profile.email, "alice@example.com");
    assert!(Rc::ptr_eq(&profile.avatar_bytes, &me));
    assert_eq!(me_avatar_color(), (130, 100, 200));
}
