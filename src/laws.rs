use vstd::prelude::*;

use crate::cache::{
    apply_event, insert_users, lookup, outcome, replay, resolved_user, stickers_outside, targets,
    valid_payload, CacheView, Event, Payload,
};
use crate::model::{normalize_group, normalize_sticker, user_ref, CachedStickerView, Group, Sticker};

verus! {

/// Storing a sticker and resolving its cached form gives the payload back:
/// every field is kept, and the nested user comes back through its
/// identifier. The description comes back where the payload gave one
/// (absent text is cached as empty text, which cannot tell the two apart).
pub proof fn law_normalize_then_resolve(v: CacheView, p: Sticker)
    requires
        valid_payload(Payload::Sticker(p)),
        p.description is Some,
    ensures
        ({
            let w = apply_event(v, Event::Create(Payload::Sticker(p)));
            let c = w.stickers[p.id];
            &&& w.stickers.contains_key(p.id)
            &&& c.available == p.available
            &&& c.description == p.description->Some_0@
            &&& c.format_type == p.format_type
            &&& c.guild_id == p.guild_id
            &&& c.id == p.id
            &&& c.kind == p.kind
            &&& c.name == p.name@
            &&& c.pack_id == p.pack_id
            &&& c.sort_value == p.sort_value
            &&& c.tags == p.tags@
            &&& c.user_id == user_ref(p.user)
            &&& resolved_user(w, c) == p.user
        }),
{
    let w = apply_event(v, Event::Create(Payload::Sticker(p)));
    match p.user {
        Some(u) => {
            let us = seq![u];
            assert(us.drop_last() =~= Seq::empty());
            assert(insert_users(v.users, us.drop_last()) == v.users);
            assert(us.last() == u);
            assert(insert_users(v.users, us) == v.users.insert(u.id, u));
        },
        None => {},
    }
}

/// Storing a group and resolving its recipients gives them back in order,
/// where their identifiers are distinct.
pub proof fn law_group_recipients_resolve(v: CacheView, g: Group)
    requires
        valid_payload(Payload::Group(g)),
        forall|i: int, j: int|
            0 <= i < j < g.recipients@.len() ==> #[trigger] g.recipients@[i].id != #[trigger] g.recipients@[j].id,
    ensures
        ({
            let w = apply_event(v, Event::Create(Payload::Group(g)));
            let c = w.groups[g.id];
            &&& w.groups.contains_key(g.id)
            &&& c == normalize_group(g)
            &&& c.recipient_ids.len() == g.recipients@.len()
            &&& forall|i: int| 0 <= i < c.recipient_ids.len() ==> {
                &&& w.users.contains_key(#[trigger] c.recipient_ids[i])
                &&& w.users[c.recipient_ids[i]] == g.recipients@[i]
            }
        }),
{
    lemma_insert_users_distinct(v.users, g.recipients@);
}

proof fn lemma_insert_users_distinct(m: Map<u64, crate::model::User>, us: Seq<crate::model::User>)
    requires
        forall|i: int, j: int| 0 <= i < j < us.len() ==> #[trigger] us[i].id != #[trigger] us[j].id,
    ensures
        forall|i: int| 0 <= i < us.len() ==> {
            &&& #[trigger] insert_users(m, us).contains_key(us[i].id)
            &&& insert_users(m, us)[us[i].id] == us[i]
        },
    decreases us.len(),
{
    if us.len() > 0 {
        let p = us.drop_last();
        lemma_insert_users_distinct(m, p);
        assert forall|i: int| 0 <= i < us.len() implies {
            &&& #[trigger] insert_users(m, us).contains_key(us[i].id)
            &&& insert_users(m, us)[us[i].id] == us[i]
        } by {
            assert(insert_users(m, us) == insert_users(m, p).insert(us.last().id, us.last()));
            if i < us.len() - 1 {
                assert(p[i] == us[i]);
                assert(us[i].id != us.last().id);
            }
        }
    }
}

/// After a sequence of events that all create, update or delete one entity,
/// the cache holds the cached form of the last payload, or nothing where the
/// last event was a delete.
pub proof fn law_latest_event_wins(v: CacheView, events: Seq<Event>, kind: crate::cache::Kind, id: u64)
    requires
        events.len() > 0,
        forall|i: int| 0 <= i < events.len() ==> targets(#[trigger] events[i], kind, id),
    ensures
        lookup(replay(v, events), kind, id) == outcome(events.last()),
{
    assert(targets(events[events.len() - 1], kind, id));
}

/// Destroying a scope removes every cached entity of that scope, in every
/// kind's map, and leaves every other entity as it was.
pub proof fn law_evict_scope(v: CacheView, scope: u64)
    ensures
        ({
            let w = apply_event(v, Event::ScopeDestroyed(scope));
            &&& forall|id: u64| #[trigger] w.stickers.contains_key(id) <==> (v.stickers.contains_key(id)
                && v.stickers[id].guild_id != Some(scope))
            &&& forall|id: u64| #[trigger] w.stickers.contains_key(id) ==> w.stickers[id] == v.stickers[id]
            &&& w.users == v.users
            &&& w.groups == v.groups
        }),
{
    let w = apply_event(v, Event::ScopeDestroyed(scope));
    assert(w.stickers == stickers_outside(v.stickers, scope));
}

/// Absent text is cached as empty text, while an absent reference stays
/// absent and a present one becomes the nested entity's identifier.
pub proof fn law_absent_fields(p: Sticker, g: Group)
    ensures
        p.description is None ==> normalize_sticker(p).description == Seq::<char>::empty(),
        p.user is None ==> normalize_sticker(p).user_id == None::<u64>,
        p.user is Some ==> normalize_sticker(p).user_id == Some(p.user->Some_0.id),
        p.guild_id is None ==> normalize_sticker(p).guild_id == None::<u64>,
        p.pack_id is None ==> normalize_sticker(p).pack_id == None::<u64>,
        g.name is None ==> normalize_group(g).name == Seq::<char>::empty(),
        g.icon is None ==> normalize_group(g).icon == Seq::<char>::empty(),
        g.application_id is None ==> normalize_group(g).application_id == None::<u64>,
        g.last_message_id is None ==> normalize_group(g).last_message_id == None::<u64>,
{
}

/// Changing the tags on either side breaks consistency between a cached
/// sticker and its payload.
pub proof fn law_consistency_tags(c: CachedStickerView, p: Sticker, q: Sticker, d: CachedStickerView)
    requires
        c == normalize_sticker(p),
        q.available == p.available && q.description == p.description && q.format_type == p.format_type
            && q.guild_id == p.guild_id && q.id == p.id && q.kind == p.kind && q.name == p.name
            && q.pack_id == p.pack_id && q.sort_value == p.sort_value && q.user == p.user,
        q.tags@ != p.tags@,
        d == (CachedStickerView { tags: d.tags, ..c }),
        d.tags != c.tags,
    ensures
        c != normalize_sticker(q),
        d != normalize_sticker(p),
{
}

} // verus!
