use vstd::prelude::*;

verus! {

/// Flag of a user who supported premium early.
pub const USER_FLAG_PREMIUM_EARLY_SUPPORTER: u64 = 1 << 9;

/// Flag of a verified bot developer.
pub const USER_FLAG_VERIFIED_DEVELOPER: u64 = 1 << 17;

/// Premium subscription of a user.
#[derive(Clone, Copy, Debug, PartialEq, Eq, Structural)]
pub enum PremiumType {
    Free,
    NitroClassic,
    Nitro,
}

/// A user as the platform sends it. Users carry no nested entities, so the
/// cache stores them as they come.
#[derive(Clone, Debug, PartialEq, Eq)]
pub struct User {
    pub accent_color: Option<u64>,
    pub avatar: Option<String>,
    pub banner: Option<String>,
    pub bot: bool,
    pub discriminator: u16,
    pub email: Option<String>,
    pub flags: Option<u64>,
    pub id: u64,
    pub locale: Option<String>,
    pub mfa_enabled: Option<bool>,
    pub name: String,
    pub premium_type: Option<PremiumType>,
    pub public_flags: Option<u64>,
    pub system: Option<bool>,
    pub verified: Option<bool>,
}

/// Image format of a sticker.
#[derive(Clone, Copy, Debug, PartialEq, Eq, Structural)]
pub enum StickerFormatType {
    Png,
    Apng,
    Lottie,
}

/// Whether a sticker is a standard one or belongs to a guild.
#[derive(Clone, Copy, Debug, PartialEq, Eq, Structural)]
pub enum StickerType {
    Standard,
    Guild,
}

/// A sticker as the platform sends it.
#[derive(Clone, Debug, PartialEq, Eq)]
pub struct Sticker {
    pub available: bool,
    pub description: Option<String>,
    pub format_type: StickerFormatType,
    pub guild_id: Option<u64>,
    pub id: u64,
    pub kind: StickerType,
    pub name: String,
    pub pack_id: Option<u64>,
    pub sort_value: Option<u64>,
    pub tags: String,
    pub user: Option<User>,
}

/// Kind of a channel.
#[derive(Clone, Copy, Debug, PartialEq, Eq, Structural)]
pub enum ChannelType {
    GuildText,
    Private,
    GuildVoice,
    Group,
    GuildCategory,
    GuildNews,
    GuildStore,
    GuildNewsThread,
    GuildPublicThread,
    GuildPrivateThread,
    GuildStageVoice,
}

/// A group direct-message channel as the platform sends it.
#[derive(Clone, Debug, PartialEq, Eq)]
pub struct Group {
    pub application_id: Option<u64>,
    pub icon: Option<String>,
    pub id: u64,
    pub kind: ChannelType,
    pub last_message_id: Option<u64>,
    /// Time of the last pin, in microseconds since the Unix epoch.
    pub last_pin_timestamp: Option<u64>,
    pub name: Option<String>,
    pub owner_id: u64,
    pub recipients: Vec<User>,
}

/// Cached form of a [`Sticker`]: the uploading user is held by identifier.
#[derive(Clone, Debug, PartialEq, Eq)]
pub struct CachedSticker {
    pub(crate) available: bool,
    pub(crate) description: String,
    pub(crate) format_type: StickerFormatType,
    pub(crate) guild_id: Option<u64>,
    pub(crate) id: u64,
    pub(crate) kind: StickerType,
    pub(crate) name: String,
    pub(crate) pack_id: Option<u64>,
    pub(crate) sort_value: Option<u64>,
    pub(crate) tags: String,
    pub(crate) user_id: Option<u64>,
}

/// Abstract value of a [`CachedSticker`].
pub struct CachedStickerView {
    pub available: bool,
    pub description: Seq<char>,
    pub format_type: StickerFormatType,
    pub guild_id: Option<u64>,
    pub id: u64,
    pub kind: StickerType,
    pub name: Seq<char>,
    pub pack_id: Option<u64>,
    pub sort_value: Option<u64>,
    pub tags: Seq<char>,
    pub user_id: Option<u64>,
}

/// Cached form of a [`Group`]: recipients are held by identifier.
#[derive(Clone, Debug, PartialEq, Eq)]
pub struct CachedGroup {
    pub(crate) application_id: Option<u64>,
    pub(crate) icon: String,
    pub(crate) id: u64,
    pub(crate) kind: ChannelType,
    pub(crate) last_message_id: Option<u64>,
    pub(crate) last_pin_timestamp: Option<u64>,
    pub(crate) name: String,
    pub(crate) owner_id: u64,
    pub(crate) recipient_ids: Vec<u64>,
}

/// Abstract value of a [`CachedGroup`].
pub struct CachedGroupView {
    pub application_id: Option<u64>,
    pub icon: Seq<char>,
    pub id: u64,
    pub kind: ChannelType,
    pub last_message_id: Option<u64>,
    pub last_pin_timestamp: Option<u64>,
    pub name: Seq<char>,
    pub owner_id: u64,
    pub recipient_ids: Seq<u64>,
}

impl View for CachedSticker {
    type V = CachedStickerView;

    closed spec fn view(&self) -> CachedStickerView {
        CachedStickerView {
            available: self.available,
            description: self.description@,
            format_type: self.format_type,
            guild_id: self.guild_id,
            id: self.id,
            kind: self.kind,
            name: self.name@,
            pack_id: self.pack_id,
            sort_value: self.sort_value,
            tags: self.tags@,
            user_id: self.user_id,
        }
    }
}

impl View for CachedGroup {
    type V = CachedGroupView;

    closed spec fn view(&self) -> CachedGroupView {
        CachedGroupView {
            application_id: self.application_id,
            icon: self.icon@,
            id: self.id,
            kind: self.kind,
            last_message_id: self.last_message_id,
            last_pin_timestamp: self.last_pin_timestamp,
            name: self.name@,
            owner_id: self.owner_id,
            recipient_ids: self.recipient_ids@,
        }
    }
}

/// An optional text field as the cache holds it: absent text is empty text.
pub open spec fn text_or_empty(t: Option<String>) -> Seq<char> {
    match t {
        Some(s) => s@,
        None => Seq::empty(),
    }
}

/// An optional nested user as the cache holds it: its identifier, or nothing.
pub open spec fn user_ref(u: Option<User>) -> Option<u64> {
    match u {
        Some(user) => Some(user.id),
        None => None,
    }
}

/// The identifiers of a sequence of users, in order.
pub open spec fn ids_of(users: Seq<User>) -> Seq<u64> {
    users.map_values(|u: User| u.id)
}

/// The cached form of a sticker payload.
pub open spec fn normalize_sticker(p: Sticker) -> CachedStickerView {
    CachedStickerView {
        available: p.available,
        description: text_or_empty(p.description),
        format_type: p.format_type,
        guild_id: p.guild_id,
        id: p.id,
        kind: p.kind,
        name: p.name@,
        pack_id: p.pack_id,
        sort_value: p.sort_value,
        tags: p.tags@,
        user_id: user_ref(p.user),
    }
}

/// The cached form of a group payload.
pub open spec fn normalize_group(p: Group) -> CachedGroupView {
    CachedGroupView {
        application_id: p.application_id,
        icon: text_or_empty(p.icon),
        id: p.id,
        kind: p.kind,
        last_message_id: p.last_message_id,
        last_pin_timestamp: p.last_pin_timestamp,
        name: text_or_empty(p.name),
        owner_id: p.owner_id,
        recipient_ids: ids_of(p.recipients@),
    }
}

/// The users nested in a sticker payload.
pub open spec fn sticker_users(p: Sticker) -> Seq<User> {
    match p.user {
        Some(u) => seq![u],
        None => Seq::empty(),
    }
}

/// Turns absent text into empty text.
pub fn text_or_default(t: Option<String>) -> (r: String)
    ensures
        r@ == text_or_empty(t),
{
    match t {
        Some(s) => s,
        None => String::new(),
    }
}

/// The identifier of an optional nested user.
pub fn user_id_of(u: &Option<User>) -> (r: Option<u64>)
    ensures
        r == user_ref(*u),
{
    match u {
        Some(user) => Some(user.id),
        None => None,
    }
}

impl CachedSticker {
    /// Builds a cached sticker from its field values.
    pub fn new(
        available: bool,
        description: String,
        format_type: StickerFormatType,
        guild_id: Option<u64>,
        id: u64,
        kind: StickerType,
        name: String,
        pack_id: Option<u64>,
        sort_value: Option<u64>,
        tags: String,
        user_id: Option<u64>,
    ) -> (r: Self)
        ensures
            r@ == (CachedStickerView {
                available,
                description: description@,
                format_type,
                guild_id,
                id,
                kind,
                name: name@,
                pack_id,
                sort_value,
                tags: tags@,
                user_id,
            }),
    {
        CachedSticker {
            available,
            description,
            format_type,
            guild_id,
            id,
            kind,
            name,
            pack_id,
            sort_value,
            tags,
            user_id,
        }
    }

    /// Splits a sticker payload into its cached form and the users nested in it.
    pub fn from_sticker(p: Sticker) -> (r: (CachedSticker, Vec<User>))
        ensures
            r.0@ == normalize_sticker(p),
            r.1@ == sticker_users(p),
    {
        let ghost p0 = p;
        let Sticker {
            available,
            description,
            format_type,
            guild_id,
            id,
            kind,
            name,
            pack_id,
            sort_value,
            tags,
            user,
        } = p;
        let user_id = user_id_of(&user);
        let mut users: Vec<User> = Vec::new();
        match user {
            Some(u) => users.push(u),
            None => {},
        }
        assert(users@ =~= sticker_users(p0));
        let cached = CachedSticker {
            available,
            description: text_or_default(description),
            format_type,
            guild_id,
            id,
            kind,
            name,
            pack_id,
            sort_value,
            tags,
            user_id,
        };
        (cached, users)
    }

    /// Whether this cached sticker is the cached form of `p`: every field
    /// matches, absent description counting as empty, and the user is
    /// compared by identifier.
    pub fn equals(&self, p: &Sticker) -> (r: bool)
        ensures
            r == (self@ == normalize_sticker(*p)),
    {
        let empty = String::new();
        let description_matches = match &p.description {
            Some(d) => self.description == *d,
            None => self.description == empty,
        };
        proof {
            if self@ == normalize_sticker(*p) {
                assert(description_matches);
            }
        }
        let r = self.available == p.available && description_matches && self.format_type
            == p.format_type && self.guild_id == p.guild_id && self.id == p.id && self.kind
            == p.kind && self.name == p.name && self.pack_id == p.pack_id && self.sort_value
            == p.sort_value && self.tags == p.tags && self.user_id == user_id_of(&p.user);
        proof {
            if r {
                assert(self.description@ =~= text_or_empty(p.description));
            }
        }
        r
    }

    /// Whether the sticker is available.
    pub fn available(&self) -> (r: bool)
        ensures
            r == self@.available,
    {
        self.available
    }

    /// Description of the sticker; empty where the payload had none.
    pub fn description(&self) -> (r: &str)
        ensures
            r@ == self@.description,
    {
        self.description.as_str()
    }

    /// Format type.
    pub fn format_type(&self) -> (r: StickerFormatType)
        ensures
            r == self@.format_type,
    {
        self.format_type
    }

    /// Identifier of the guild that owns the sticker.
    pub fn guild_id(&self) -> (r: Option<u64>)
        ensures
            r == self@.guild_id,
    {
        self.guild_id
    }

    /// Identifier of the sticker.
    pub fn id(&self) -> (r: u64)
        ensures
            r == self@.id,
    {
        self.id
    }

    /// Kind of sticker.
    pub fn kind(&self) -> (r: StickerType)
        ensures
            r == self@.kind,
    {
        self.kind
    }

    /// Name of the sticker.
    pub fn name(&self) -> (r: &str)
        ensures
            r@ == self@.name,
    {
        self.name.as_str()
    }

    /// Identifier of the pack the sticker is in.
    pub fn pack_id(&self) -> (r: Option<u64>)
        ensures
            r == self@.pack_id,
    {
        self.pack_id
    }

    /// Sort order of the sticker within its pack.
    pub fn sort_value(&self) -> (r: Option<u64>)
        ensures
            r == self@.sort_value,
    {
        self.sort_value
    }

    /// Comma-separated tags of the sticker.
    pub fn tags(&self) -> (r: &str)
        ensures
            r@ == self@.tags,
    {
        self.tags.as_str()
    }

    /// Identifier of the user that uploaded the sticker.
    pub fn user_id(&self) -> (r: Option<u64>)
        ensures
            r == self@.user_id,
    {
        self.user_id
    }
}

impl PartialEq<Sticker> for CachedSticker {
    /// Consistency between a cached sticker and a payload: see
    /// [`CachedSticker::equals`].
    fn eq(&self, other: &Sticker) -> (r: bool) {
        self.equals(other)
    }
}

impl vstd::std_specs::cmp::PartialEqSpecImpl<Sticker> for CachedSticker {
    open spec fn obeys_eq_spec() -> bool {
        true
    }

    open spec fn eq_spec(&self, other: &Sticker) -> bool {
        self@ == normalize_sticker(*other)
    }
}

impl CachedGroup {
    /// Splits a group payload into its cached form and its recipients.
    pub fn from_group(p: Group) -> (r: (CachedGroup, Vec<User>))
        ensures
            r.0@ == normalize_group(p),
            r.1@ == p.recipients@,
    {
        let Group {
            application_id,
            icon,
            id,
            kind,
            last_message_id,
            last_pin_timestamp,
            name,
            owner_id,
            recipients,
        } = p;
        let mut recipient_ids: Vec<u64> = Vec::new();
        let mut i: usize = 0;
        while i < recipients.len()
            invariant
                i <= recipients@.len(),
                recipient_ids@ =~= ids_of(recipients@.subrange(0, i as int)),
            decreases recipients@.len() - i,
        {
            recipient_ids.push(recipients[i].id);
            i = i + 1;
        }
        assert(recipients@.subrange(0, i as int) =~= recipients@);
        let cached = CachedGroup {
            application_id,
            icon: text_or_default(icon),
            id,
            kind,
            last_message_id,
            last_pin_timestamp,
            name: text_or_default(name),
            owner_id,
            recipient_ids,
        };
        (cached, recipients)
    }

    /// Whether this cached group is the cached form of `p`: every field
    /// matches, absent text counting as empty, and recipients are compared
    /// by identifier, in order.
    pub fn equals(&self, p: &Group) -> (r: bool)
        ensures
            r == (self@ == normalize_group(*p)),
    {
        let empty = String::new();
        let icon_matches = match &p.icon {
            Some(t) => self.icon == *t,
            None => self.icon == empty,
        };
        let name_matches = match &p.name {
            Some(t) => self.name == *t,
            None => self.name == empty,
        };
        let mut same_recipients = self.recipient_ids.len() == p.recipients.len();
        if same_recipients {
            let mut i: usize = 0;
            while i < self.recipient_ids.len()
                invariant
                    self.recipient_ids@.len() == p.recipients@.len(),
                    i <= self.recipient_ids@.len(),
                    same_recipients == (forall|j: int| 0 <= j < i ==> self.recipient_ids@[j] == #[trigger] p.recipients@[j].id),
                decreases self.recipient_ids@.len() - i,
            {
                if self.recipient_ids[i] != p.recipients[i].id {
                    same_recipients = false;
                }
                i = i + 1;
            }
        }
        proof {
            if self@ == normalize_group(*p) {
                assert(icon_matches);
                assert(name_matches);
                assert forall|j: int| 0 <= j < self.recipient_ids@.len() implies self.recipient_ids@[j]
                    == #[trigger] p.recipients@[j].id by {
                    assert(ids_of(p.recipients@)[j] == p.recipients@[j].id);
                }
            }
        }
        let r = icon_matches && name_matches && same_recipients && self.application_id == p.application_id
            && self.id == p.id && self.kind == p.kind && self.last_message_id == p.last_message_id
            && self.last_pin_timestamp == p.last_pin_timestamp && self.owner_id == p.owner_id;
        proof {
            if r {
                assert(self.icon@ =~= text_or_empty(p.icon));
                assert(self.name@ =~= text_or_empty(p.name));
                assert(self.recipient_ids@ =~= ids_of(p.recipients@));
            }
        }
        r
    }

    /// Identifier of the group.
    pub fn id(&self) -> (r: u64)
        ensures
            r == self@.id,
    {
        self.id
    }

    /// Identifier of the group's owner.
    pub fn owner_id(&self) -> (r: u64)
        ensures
            r == self@.owner_id,
    {
        self.owner_id
    }

    /// Name of the group; empty where the payload had none.
    pub fn name(&self) -> (r: &str)
        ensures
            r@ == self@.name,
    {
        self.name.as_str()
    }

    /// Icon hash of the group; empty where the payload had none.
    pub fn icon(&self) -> (r: &str)
        ensures
            r@ == self@.icon,
    {
        self.icon.as_str()
    }

    /// Identifiers of the recipients, in payload order.
    pub fn recipient_ids(&self) -> (r: &[u64])
        ensures
            r@ == self@.recipient_ids,
    {
        self.recipient_ids.as_slice()
    }
}

} // verus!
