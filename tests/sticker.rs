use entity_cache::cache::{Cache, Event, Kind, Payload, RecordRef};
use entity_cache::model::{
    CachedSticker, Group, ChannelType, PremiumType, Sticker, StickerFormatType, StickerType, User,
    USER_FLAG_PREMIUM_EARLY_SUPPORTER, USER_FLAG_VERIFIED_DEVELOPER,
};

fn user(id: u64) -> User {
    User {
        accent_color: None,
        avatar: Some("aaaaaaaaaaaaaaaaaaaaaaaaaaaaaaaa".to_owned()),
        banner: None,
        bot: false,
        discriminator: 1,
        email: Some("address@example.com".to_owned()),
        flags: Some(USER_FLAG_PREMIUM_EARLY_SUPPORTER | USER_FLAG_VERIFIED_DEVELOPER),
        id,
        locale: Some("en-us".to_owned()),
        mfa_enabled: Some(true),
        name: "test".to_owned(),
        premium_type: Some(PremiumType::Nitro),
        public_flags: Some(USER_FLAG_PREMIUM_EARLY_SUPPORTER | USER_FLAG_VERIFIED_DEVELOPER),
        system: Some(true),
        verified: Some(true),
    }
}

fn sticker() -> Sticker {
    Sticker {
        available: true,
        description: Some("sticker".into()),
        format_type: StickerFormatType::Png,
        guild_id: Some(1),
        id: 2,
        kind: StickerType::Guild,
        name: "stick".into(),
        pack_id: Some(3),
        sort_value: Some(1),
        tags: "foo,bar,baz".into(),
        user: Some(user(1)),
    }
}

fn cached() -> CachedSticker {
    CachedSticker::new(
        true,
        "sticker".into(),
        StickerFormatType::Png,
        Some(1),
        2,
        StickerType::Guild,
        "stick".into(),
        Some(3),
        Some(1),
        "foo,bar,baz".into(),
        Some(1),
    )
}

fn group(id: u64, recipients: Vec<User>) -> Group {
    Group {
        application_id: Some(1),
        icon: Some("icon hash".to_owned()),
        id,
        kind: ChannelType::Group,
        last_message_id: Some(3),
        last_pin_timestamp: None,
        name: Some("a group".to_owned()),
        owner_id: 4,
        recipients,
    }
}

#[test]
fn test_eq_sticker() {
    let sticker = sticker();
    let cached = cached();
    assert_eq!(cached, sticker);
}

#[test]
fn create_sticker_with_user() {
    let mut cache = Cache::new();
    cache.apply(Event::Create(Payload::Sticker(sticker())));
    let got = cache.sticker(2).expect("sticker cached");
    assert_eq!(got, &cached());
    assert_eq!(got.guild_id(), Some(1));
    assert_eq!(got.pack_id(), Some(3));
    assert_eq!(got.tags(), "foo,bar,baz");
    assert_eq!(got.user_id(), Some(1));
    assert_eq!(cache.user(1), Some(&user(1)));
}

#[test]
fn scope_destroyed_keeps_user() {
    let mut cache = Cache::new();
    cache.apply(Event::Create(Payload::Sticker(sticker())));
    cache.apply(Event::ScopeDestroyed(1));
    assert!(cache.sticker(2).is_none());
    assert_eq!(cache.user(1), Some(&user(1)));
}

#[test]
fn consistency_detects_single_field_change() {
    let p = sticker();
    let c = cached();
    assert!(c.equals(&p));
    let mut q = sticker();
    q.tags = "foo,bar".into();
    assert!(!c.equals(&q));
    let changed = CachedSticker::new(
        true,
        "sticker".into(),
        StickerFormatType::Png,
        Some(1),
        2,
        StickerType::Guild,
        "stick".into(),
        Some(3),
        Some(1),
        "foo".into(),
        Some(1),
    );
    assert!(!changed.equals(&p));
    let mut r = sticker();
    r.user = None;
    assert!(!c.equals(&r));
}

#[test]
fn absent_text_is_empty_and_absent_reference_is_none() {
    let mut p = sticker();
    p.description = None;
    p.user = None;
    p.pack_id = None;
    let (c, users) = CachedSticker::from_sticker(p.clone());
    assert_eq!(c.description(), "");
    assert_eq!(c.user_id(), None);
    assert_eq!(c.pack_id(), None);
    assert!(users.is_empty());
    assert!(c.equals(&p));
    let mut with_empty = p.clone();
    with_empty.description = Some(String::new());
    assert!(c.equals(&with_empty));
}

#[test]
fn normalize_then_resolve_gives_payload_back() {
    let mut cache = Cache::new();
    let p = sticker();
    cache.apply(Event::Create(Payload::Sticker(p.clone())));
    let c = cache.sticker(2).unwrap();
    let bundle = cache.resolve_sticker(c);
    assert!(bundle.sticker.equals(&p));
    assert_eq!(bundle.sticker.description(), "sticker");
    assert_eq!(bundle.user, p.user.as_ref());
}

#[test]
fn dangling_user_resolves_to_none() {
    let mut cache = Cache::new();
    cache.apply(Event::Create(Payload::Sticker(sticker())));
    cache.apply(Event::Delete(Kind::User, 1));
    let c = cache.sticker(2).unwrap();
    let bundle = cache.resolve_sticker(c);
    assert_eq!(bundle.sticker.user_id(), Some(1));
    assert!(bundle.user.is_none());
}

#[test]
fn latest_event_wins() {
    let mut cache = Cache::new();
    cache.apply(Event::Create(Payload::Sticker(sticker())));
    let mut renamed = sticker();
    renamed.name = "renamed".into();
    renamed.description = None;
    cache.apply(Event::Update(Payload::Sticker(renamed.clone())));
    let c = cache.sticker(2).unwrap();
    assert_eq!(c.name(), "renamed");
    assert_eq!(c.description(), "");
    assert!(c.equals(&renamed));
    cache.apply(Event::Delete(Kind::Sticker, 2));
    assert!(cache.sticker(2).is_none());
    cache.apply(Event::Create(Payload::Sticker(sticker())));
    assert_eq!(cache.sticker(2), Some(&cached()));
}

#[test]
fn delete_does_not_cascade() {
    let mut cache = Cache::new();
    cache.apply(Event::Create(Payload::Sticker(sticker())));
    cache.apply(Event::Delete(Kind::Sticker, 2));
    assert!(cache.sticker(2).is_none());
    assert_eq!(cache.user(1), Some(&user(1)));
}

#[test]
fn evict_scope_leaves_other_scopes() {
    let mut cache = Cache::new();
    let mut a = sticker();
    a.id = 10;
    a.guild_id = Some(7);
    let mut b = sticker();
    b.id = 11;
    b.guild_id = Some(8);
    let mut c = sticker();
    c.id = 12;
    c.guild_id = None;
    let mut d = sticker();
    d.id = 13;
    d.guild_id = Some(7);
    cache.apply(Event::Create(Payload::Sticker(a)));
    cache.apply(Event::Create(Payload::Sticker(b)));
    cache.apply(Event::Create(Payload::Sticker(c)));
    cache.apply(Event::Create(Payload::Sticker(d)));
    cache.apply(Event::Create(Payload::Group(group(20, vec![user(5)]))));
    assert_eq!(cache.list_cached_in_scope(Kind::Sticker, 7), vec![10, 13]);
    cache.evict_scope(7);
    assert!(cache.sticker(10).is_none());
    assert!(cache.sticker(13).is_none());
    assert!(cache.sticker(11).is_some());
    assert!(cache.sticker(12).is_some());
    assert!(cache.group(20).is_some());
    assert!(cache.user(5).is_some());
    assert!(cache.list_cached_in_scope(Kind::Sticker, 7).is_empty());
    assert_eq!(cache.list_cached_in_scope(Kind::Sticker, 8), vec![11]);
}

#[test]
fn scope_listing_keeps_first_insertion_order() {
    let mut cache = Cache::new();
    for id in [5u64, 3, 9] {
        let mut s = sticker();
        s.id = id;
        cache.apply(Event::Create(Payload::Sticker(s)));
    }
    let mut again = sticker();
    again.id = 5;
    cache.apply(Event::Update(Payload::Sticker(again)));
    assert_eq!(cache.list_cached_in_scope(Kind::Sticker, 1), vec![5, 3, 9]);
    assert!(cache.list_cached_in_scope(Kind::User, 1).is_empty());
}

#[test]
fn group_recipients_become_users() {
    let mut cache = Cache::new();
    let mut g = group(20, vec![user(5), user(6)]);
    g.name = None;
    cache.apply(Event::Create(Payload::Group(g)));
    let cached = cache.group(20).unwrap();
    assert_eq!(cached.recipient_ids(), &[5, 6]);
    assert_eq!(cached.name(), "");
    assert_eq!(cached.icon(), "icon hash");
    assert_eq!(cached.owner_id(), 4);
    assert_eq!(cache.user(5), Some(&user(5)));
    assert_eq!(cache.user(6), Some(&user(6)));
}

#[test]
fn user_update_replaces_whole_record() {
    let mut cache = Cache::new();
    cache.apply(Event::Create(Payload::User(user(9))));
    let mut u = user(9);
    u.email = None;
    u.name = "other".to_owned();
    cache.apply(Event::Update(Payload::User(u.clone())));
    assert_eq!(cache.user(9), Some(&u));
}

#[test]
fn get_cached_by_kind() {
    let mut cache = Cache::new();
    cache.apply(Event::Create(Payload::Sticker(sticker())));
    match cache.get_cached(Kind::Sticker, 2) {
        Some(RecordRef::Sticker(c)) => assert_eq!(c, &cached()),
        _ => panic!("sticker 2 should be cached"),
    }
    match cache.get_cached(Kind::User, 1) {
        Some(RecordRef::User(u)) => assert_eq!(u, &user(1)),
        _ => panic!("user 1 should be cached"),
    }
    assert!(cache.get_cached(Kind::Group, 2).is_none());
    assert!(cache.get_cached(Kind::Sticker, 1).is_none());
}

#[test]
fn group_resolution_marks_missing_users() {
    let mut cache = Cache::new();
    cache.apply(Event::Create(Payload::Group(group(20, vec![user(5), user(6)]))));
    cache.apply(Event::Create(Payload::User(user(4))));
    cache.apply(Event::Delete(Kind::User, 6));
    let g = cache.group(20).unwrap();
    let bundle = cache.resolve_group(g);
    assert_eq!(bundle.owner, Some(&user(4)));
    assert_eq!(bundle.recipients, vec![Some(&user(5)), None]);
}

#[test]
fn group_consistency() {
    let g = group(20, vec![user(5), user(6)]);
    let (c, users) = entity_cache::model::CachedGroup::from_group(g.clone());
    assert_eq!(users, vec![user(5), user(6)]);
    assert!(c.equals(&g));
    let mut other = g.clone();
    other.recipients = vec![user(6), user(5)];
    assert!(!c.equals(&other));
    let mut renamed = g.clone();
    renamed.name = None;
    assert!(!c.equals(&renamed));
}
