use vstd::prelude::*;

use crate::model::{
    normalize_group, normalize_sticker, sticker_users, CachedGroup, CachedGroupView, CachedSticker,
    CachedStickerView, Group, Sticker, User,
};
use crate::store::{KindMap, Slot};

verus! {

/// The kinds of entity that the cache tracks.
#[derive(Clone, Copy, Debug, PartialEq, Eq, Structural)]
pub enum Kind {
    Sticker,
    User,
    Group,
}

/// An authoritative payload of one tracked kind.
#[derive(Clone, Debug, PartialEq, Eq)]
pub enum Payload {
    Sticker(Sticker),
    User(User),
    Group(Group),
}

/// A change announced by the platform.
#[derive(Clone, Debug, PartialEq, Eq)]
pub enum Event {
    Create(Payload),
    Update(Payload),
    Delete(Kind, u64),
    /// The scope (a guild) with this identifier is gone.
    ScopeDestroyed(u64),
}

/// Abstract value of the cache: one map per kind.
pub struct CacheView {
    pub stickers: Map<u64, CachedStickerView>,
    pub users: Map<u64, User>,
    pub groups: Map<u64, CachedGroupView>,
}

/// A record of any kind, as the cache holds it.
pub enum RecordView {
    Sticker(CachedStickerView),
    User(User),
    Group(CachedGroupView),
}

/// Identifiers are non-zero, nested users included.
pub open spec fn valid_payload(p: Payload) -> bool {
    match p {
        Payload::Sticker(s) => s.id != 0 && forall|i: int|
            0 <= i < sticker_users(s).len() ==> #[trigger] sticker_users(s)[i].id != 0,
        Payload::User(u) => u.id != 0,
        Payload::Group(g) => g.id != 0 && forall|i: int|
            0 <= i < g.recipients@.len() ==> #[trigger] g.recipients@[i].id != 0,
    }
}

pub open spec fn valid_event(e: Event) -> bool {
    match e {
        Event::Create(p) => valid_payload(p),
        Event::Update(p) => valid_payload(p),
        _ => true,
    }
}

/// Stores users one after the other; a later user replaces an earlier one
/// with the same identifier.
pub open spec fn insert_users(m: Map<u64, User>, us: Seq<User>) -> Map<u64, User>
    decreases us.len(),
{
    if us.len() == 0 {
        m
    } else {
        insert_users(m, us.drop_last()).insert(us.last().id, us.last())
    }
}

/// The state after storing a payload and the users nested in it.
pub open spec fn store_payload(v: CacheView, p: Payload) -> CacheView {
    match p {
        Payload::Sticker(s) => CacheView {
            stickers: v.stickers.insert(s.id, normalize_sticker(s)),
            users: insert_users(v.users, sticker_users(s)),
            groups: v.groups,
        },
        Payload::User(u) => CacheView { stickers: v.stickers, users: v.users.insert(u.id, u), groups: v.groups },
        Payload::Group(g) => CacheView {
            stickers: v.stickers,
            users: insert_users(v.users, g.recipients@),
            groups: v.groups.insert(g.id, normalize_group(g)),
        },
    }
}

/// The stickers whose guild is not `scope`.
pub open spec fn stickers_outside(m: Map<u64, CachedStickerView>, scope: u64) -> Map<u64, CachedStickerView> {
    m.restrict(m.dom().filter(|k: u64| m[k].guild_id != Some(scope)))
}

/// The state after one event.
pub open spec fn apply_event(v: CacheView, e: Event) -> CacheView {
    match e {
        Event::Create(p) => store_payload(v, p),
        Event::Update(p) => store_payload(v, p),
        Event::Delete(Kind::Sticker, id) => CacheView { stickers: v.stickers.remove(id), users: v.users, groups: v.groups },
        Event::Delete(Kind::User, id) => CacheView { stickers: v.stickers, users: v.users.remove(id), groups: v.groups },
        Event::Delete(Kind::Group, id) => CacheView { stickers: v.stickers, users: v.users, groups: v.groups.remove(id) },
        Event::ScopeDestroyed(scope) => CacheView {
            stickers: stickers_outside(v.stickers, scope),
            users: v.users,
            groups: v.groups,
        },
    }
}

/// The state after a sequence of events, applied in order.
pub open spec fn replay(v: CacheView, events: Seq<Event>) -> CacheView
    decreases events.len(),
{
    if events.len() == 0 {
        v
    } else {
        apply_event(replay(v, events.drop_last()), events.last())
    }
}

/// What the cache holds for `id` in the map of `kind`.
pub open spec fn lookup(v: CacheView, kind: Kind, id: u64) -> Option<RecordView> {
    match kind {
        Kind::Sticker => if v.stickers.contains_key(id) { Some(RecordView::Sticker(v.stickers[id])) } else { None },
        Kind::User => if v.users.contains_key(id) { Some(RecordView::User(v.users[id])) } else { None },
        Kind::Group => if v.groups.contains_key(id) { Some(RecordView::Group(v.groups[id])) } else { None },
    }
}

pub open spec fn payload_kind(p: Payload) -> Kind {
    match p {
        Payload::Sticker(_) => Kind::Sticker,
        Payload::User(_) => Kind::User,
        Payload::Group(_) => Kind::Group,
    }
}

pub open spec fn payload_id(p: Payload) -> u64 {
    match p {
        Payload::Sticker(s) => s.id,
        Payload::User(u) => u.id,
        Payload::Group(g) => g.id,
    }
}

/// The cached form of a payload.
pub open spec fn normalize(p: Payload) -> RecordView {
    match p {
        Payload::Sticker(s) => RecordView::Sticker(normalize_sticker(s)),
        Payload::User(u) => RecordView::User(u),
        Payload::Group(g) => RecordView::Group(normalize_group(g)),
    }
}

/// Whether an event creates, updates or deletes the entity `id` of `kind`.
pub open spec fn targets(e: Event, kind: Kind, id: u64) -> bool {
    match e {
        Event::Create(p) => payload_kind(p) == kind && payload_id(p) == id,
        Event::Update(p) => payload_kind(p) == kind && payload_id(p) == id,
        Event::Delete(k, i) => k == kind && i == id,
        Event::ScopeDestroyed(_) => false,
    }
}

/// What an event that targets an entity leaves cached for it.
pub open spec fn outcome(e: Event) -> Option<RecordView> {
    match e {
        Event::Create(p) => Some(normalize(p)),
        Event::Update(p) => Some(normalize(p)),
        _ => None,
    }
}

/// The user that a cached sticker refers to, where that user is cached.
pub open spec fn resolved_user(v: CacheView, c: CachedStickerView) -> Option<User> {
    match c.user_id {
        Some(uid) => if v.users.contains_key(uid) { Some(v.users[uid]) } else { None },
        None => None,
    }
}

/// Whether the entity `id` of `kind` is cached and owned by `scope`.
pub open spec fn in_scope(v: CacheView, kind: Kind, id: u64, scope: u64) -> bool {
    match kind {
        Kind::Sticker => v.stickers.contains_key(id) && v.stickers[id].guild_id == Some(scope),
        _ => false,
    }
}

/// A cached sticker and its resolved user.
pub struct StickerBundle<'a> {
    pub sticker: &'a CachedSticker,
    /// The uploading user, or `None` where the sticker names none or the
    /// user is not cached.
    pub user: Option<&'a User>,
}

/// A cached group and its resolved owner and recipients.
pub struct GroupBundle<'a> {
    pub group: &'a CachedGroup,
    /// The owner, or `None` where the owner is not cached.
    pub owner: Option<&'a User>,
    /// For each recipient identifier in order, the cached user or `None`.
    pub recipients: Vec<Option<&'a User>>,
}

/// A borrowed record of any kind.
pub enum RecordRef<'a> {
    Sticker(&'a CachedSticker),
    User(&'a User),
    Group(&'a CachedGroup),
}

pub open spec fn record_view(r: RecordRef) -> RecordView {
    match r {
        RecordRef::Sticker(c) => RecordView::Sticker(c@),
        RecordRef::User(u) => RecordView::User(*u),
        RecordRef::Group(g) => RecordView::Group(g@),
    }
}

/// The user cached under `id`, if any.
pub open spec fn cached_user(v: CacheView, id: u64) -> Option<User> {
    if v.users.contains_key(id) {
        Some(v.users[id])
    } else {
        None
    }
}

pub open spec fn opt_ref_view(o: Option<&User>) -> Option<User> {
    match o {
        Some(u) => Some(*u),
        None => None,
    }
}

/// The in-memory cache: one map per kind, related only by identifiers.
pub struct Cache {
    stickers: KindMap<CachedSticker>,
    users: KindMap<User>,
    groups: KindMap<CachedGroup>,
}

impl Cache {
    pub closed spec fn wf(&self) -> bool {
        &&& self.stickers.wf()
        &&& self.users.wf()
        &&& self.groups.wf()
        &&& forall|k: u64| #[trigger] self.stickers@.contains_key(k) ==> self.stickers@[k].0 == self.stickers@[k].1@.guild_id
        &&& forall|k: u64| #[trigger] self.users@.contains_key(k) ==> self.users@[k].0 == None::<u64>
        &&& forall|k: u64| #[trigger] self.groups@.contains_key(k) ==> self.groups@[k].0 == None::<u64>
    }

    pub closed spec fn view(&self) -> CacheView {
        CacheView {
            stickers: self.stickers@.map_values(|s: Slot<CachedSticker>| s.1@),
            users: self.users@.map_values(|s: Slot<User>| s.1),
            groups: self.groups@.map_values(|s: Slot<CachedGroup>| s.1@),
        }
    }

    /// An empty cache.
    pub fn new() -> (r: Self)
        ensures
            r.wf(),
            r@.stickers == Map::<u64, CachedStickerView>::empty(),
            r@.users == Map::<u64, User>::empty(),
            r@.groups == Map::<u64, CachedGroupView>::empty(),
    {
        let r = Cache { stickers: KindMap::new(), users: KindMap::new(), groups: KindMap::new() };
        assert(r@.stickers =~= Map::<u64, CachedStickerView>::empty());
        assert(r@.users =~= Map::<u64, User>::empty());
        assert(r@.groups =~= Map::<u64, CachedGroupView>::empty());
        r
    }

    /// Stores users in order, each replacing what was cached under its identifier.
    fn store_users(&mut self, users: Vec<User>)
        requires
            old(self).wf(),
            forall|i: int| 0 <= i < users@.len() ==> #[trigger] users@[i].id != 0,
        ensures
            final(self).wf(),
            final(self)@ == (CacheView {
                stickers: old(self)@.stickers,
                users: insert_users(old(self)@.users, users@),
                groups: old(self)@.groups,
            }),
    {
        let ghost all = users@;
        let ghost n = users@.len();
        let mut rest = users;
        while rest.len() > 0
            invariant
                self.wf(),
                n == all.len(),
                rest@.len() <= n,
                forall|j: int| 0 <= j < rest@.len() ==> #[trigger] rest@[j] == all[n - rest@.len() + j],
                forall|i: int| 0 <= i < all.len() ==> #[trigger] all[i].id != 0,
                self@ == (CacheView {
                    stickers: old(self)@.stickers,
                    users: insert_users(old(self)@.users, all.subrange(0, n - rest@.len())),
                    groups: old(self)@.groups,
                }),
            decreases rest@.len(),
        {
            let ghost done = n - rest@.len();
            let u = rest.remove(0);
            assert(u == all[done]);
            let ghost before = self@;
            let id = u.id;
            self.users.upsert(id, None, u);
            proof {
                let post = all.subrange(0, done + 1);
                assert(post.drop_last() =~= all.subrange(0, done));
                assert(self@.users =~= before.users.insert(id, u));
                assert(self@.stickers =~= before.stickers);
                assert(self@.groups =~= before.groups);
            }
        }
        assert(all.subrange(0, n as int) =~= all);
    }

    fn store(&mut self, p: Payload)
        requires
            old(self).wf(),
            valid_payload(p),
        ensures
            final(self).wf(),
            final(self)@ == store_payload(old(self)@, p),
    {
        match p {
            Payload::Sticker(s) => {
                let (c, users) = CachedSticker::from_sticker(s);
                let id = c.id();
                let scope = c.guild_id();
                let ghost cv = c@;
                let ghost before = self@;
                self.stickers.upsert(id, scope, c);
                assert(self@.stickers =~= before.stickers.insert(id, cv));
                assert(self@.users =~= before.users);
                assert(self@.groups =~= before.groups);
                self.store_users(users);
            },
            Payload::User(u) => {
                let id = u.id;
                let ghost before = self@;
                self.users.upsert(id, None, u);
                assert(self@.users =~= before.users.insert(id, u));
                assert(self@.stickers =~= before.stickers);
                assert(self@.groups =~= before.groups);
            },
            Payload::Group(g) => {
                let (c, users) = CachedGroup::from_group(g);
                let id = c.id();
                let ghost cv = c@;
                let ghost before = self@;
                self.groups.upsert(id, None, c);
                assert(self@.groups =~= before.groups.insert(id, cv));
                assert(self@.users =~= before.users);
                assert(self@.stickers =~= before.stickers);
                self.store_users(users);
            },
        }
    }

    /// Removes the entity `id` of `kind`; nothing else is touched.
    fn delete(&mut self, kind: Kind, id: u64)
        requires
            old(self).wf(),
        ensures
            final(self).wf(),
            final(self)@ == apply_event(old(self)@, Event::Delete(kind, id)),
    {
        let ghost before = self@;
        match kind {
            Kind::Sticker => {
                self.stickers.remove(id);
                assert(self@.stickers =~= before.stickers.remove(id));
            },
            Kind::User => {
                self.users.remove(id);
                assert(self@.users =~= before.users.remove(id));
            },
            Kind::Group => {
                self.groups.remove(id);
                assert(self@.groups =~= before.groups.remove(id));
            },
        }
        assert(self@.stickers =~= apply_event(before, Event::Delete(kind, id)).stickers);
        assert(self@.users =~= apply_event(before, Event::Delete(kind, id)).users);
        assert(self@.groups =~= apply_event(before, Event::Delete(kind, id)).groups);
    }

    /// Removes, from every kind's map, each record owned by `scope`.
    pub fn evict_scope(&mut self, scope: u64)
        requires
            old(self).wf(),
        ensures
            final(self).wf(),
            final(self)@ == apply_event(old(self)@, Event::ScopeDestroyed(scope)),
    {
        let ghost before = self@;
        let ghost old_stickers = self.stickers@;
        let ghost old_users = self.users@;
        let ghost old_groups = self.groups@;
        self.stickers.evict_scope(scope);
        self.users.evict_scope(scope);
        self.groups.evict_scope(scope);
        assert(self.users@ =~= old_users);
        assert(self.groups@ =~= old_groups);
        assert(self@.stickers =~= stickers_outside(before.stickers, scope));
        assert(self@.users =~= before.users);
        assert(self@.groups =~= before.groups);
    }

    /// Applies one event to the cache.
    pub fn apply(&mut self, e: Event)
        requires
            old(self).wf(),
            valid_event(e),
        ensures
            final(self).wf(),
            final(self)@ == apply_event(old(self)@, e),
    {
        match e {
            Event::Create(p) => self.store(p),
            Event::Update(p) => self.store(p),
            Event::Delete(kind, id) => self.delete(kind, id),
            Event::ScopeDestroyed(scope) => self.evict_scope(scope),
        }
    }

    /// The cached sticker `id`, if any.
    pub fn sticker(&self, id: u64) -> (r: Option<&CachedSticker>)
        requires
            self.wf(),
        ensures
            match r {
                Some(c) => self@.stickers.contains_key(id) && c@ == self@.stickers[id],
                None => !self@.stickers.contains_key(id),
            },
    {
        self.stickers.get(id)
    }

    /// The cached user `id`, if any.
    pub fn user(&self, id: u64) -> (r: Option<&User>)
        requires
            self.wf(),
        ensures
            r == (if self@.users.contains_key(id) { Some(&self@.users[id]) } else { None::<&User> }),
    {
        self.users.get(id)
    }

    /// The cached group `id`, if any.
    pub fn group(&self, id: u64) -> (r: Option<&CachedGroup>)
        requires
            self.wf(),
        ensures
            match r {
                Some(c) => self@.groups.contains_key(id) && c@ == self@.groups[id],
                None => !self@.groups.contains_key(id),
            },
    {
        self.groups.get(id)
    }

    /// The record cached under `id` in the map of `kind`, if any.
    pub fn get_cached(&self, kind: Kind, id: u64) -> (r: Option<RecordRef<'_>>)
        requires
            self.wf(),
        ensures
            match r {
                Some(rec) => lookup(self@, kind, id) == Some(record_view(rec)),
                None => lookup(self@, kind, id) is None,
            },
    {
        match kind {
            Kind::Sticker => match self.sticker(id) {
                Some(c) => Some(RecordRef::Sticker(c)),
                None => None,
            },
            Kind::User => match self.user(id) {
                Some(u) => Some(RecordRef::User(u)),
                None => None,
            },
            Kind::Group => match self.group(id) {
                Some(g) => Some(RecordRef::Group(g)),
                None => None,
            },
        }
    }

    /// Resolves the owner and the recipients of a group; dangling references
    /// resolve to `None`.
    pub fn resolve_group<'a>(&'a self, group: &'a CachedGroup) -> (r: GroupBundle<'a>)
        requires
            self.wf(),
        ensures
            r.group == group,
            opt_ref_view(r.owner) == cached_user(self@, group@.owner_id),
            r.recipients@.len() == group@.recipient_ids.len(),
            forall|i: int| 0 <= i < r.recipients@.len() ==> opt_ref_view(#[trigger] r.recipients@[i]) == cached_user(
                self@,
                group@.recipient_ids[i],
            ),
    {
        let owner = self.user(group.owner_id());
        let ids = group.recipient_ids();
        let mut recipients: Vec<Option<&'a User>> = Vec::new();
        let mut i: usize = 0;
        while i < ids.len()
            invariant
                self.wf(),
                ids@ == group@.recipient_ids,
                i <= ids@.len(),
                recipients@.len() == i,
                forall|j: int| 0 <= j < i ==> opt_ref_view(#[trigger] recipients@[j]) == cached_user(self@, ids@[j]),
            decreases ids@.len() - i,
        {
            recipients.push(self.user(ids[i]));
            i = i + 1;
        }
        GroupBundle { group, owner, recipients }
    }

    /// The identifiers cached in the map of `kind` whose scope is `scope`,
    /// each once, in the order in which they were first cached. Only
    /// stickers have a scope: the other kinds list nothing.
    pub fn list_cached_in_scope(&self, kind: Kind, scope: u64) -> (r: Vec<u64>)
        requires
            self.wf(),
        ensures
            r@.no_duplicates(),
            forall|k: u64| #[trigger] r@.contains(k) <==> in_scope(self@, kind, k, scope),
    {
        let r = match kind {
            Kind::Sticker => self.stickers.list_in_scope(scope),
            Kind::User => self.users.list_in_scope(scope),
            Kind::Group => self.groups.list_in_scope(scope),
        };
        assert forall|k: u64| #[trigger] r@.contains(k) <==> in_scope(self@, kind, k, scope) by {
            if r@.contains(k) {
                assert(self.stickers@.contains_key(k) || self.users@.contains_key(k) || self.groups@.contains_key(k));
            }
        }
        r
    }

    /// Resolves the user that a sticker refers to; a dangling reference
    /// resolves to `None`.
    pub fn resolve_sticker<'a>(&'a self, sticker: &'a CachedSticker) -> (r: StickerBundle<'a>)
        requires
            self.wf(),
        ensures
            r.sticker == sticker,
            match r.user {
                Some(u) => resolved_user(self@, sticker@) == Some(*u),
                None => resolved_user(self@, sticker@) == None::<User>,
            },
    {
        let user = match sticker.user_id() {
            Some(uid) => self.user(uid),
            None => None,
        };
        StickerBundle { sticker, user }
    }
}

} // verus!
