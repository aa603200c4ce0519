use vstd::prelude::*;

verus! {

pub const STICKER_NAME_LENGTH_MIN: usize = 2;
pub const STICKER_NAME_LENGTH_MAX: usize = 30;
pub const STICKER_DESCRIPTION_LENGTH_MIN: usize = 2;
pub const STICKER_DESCRIPTION_LENGTH_MAX: usize = 100;
pub const STICKER_TAGS_LENGTH_MIN: usize = 2;
pub const STICKER_TAGS_LENGTH_MAX: usize = 200;
pub const AUDIT_REASON_LENGTH_MAX: usize = 512;

/// Relies on `str::chars` and `Iterator::count`: the number of characters.
#[verifier::external_body]
fn char_count(s: &str) -> (r: usize)
    ensures
        r == s@.len(),
{
    s.chars().count()
}

/// Which sticker field failed validation.
#[derive(Clone, Copy, Debug, PartialEq, Eq, Structural)]
pub enum StickerValidationErrorType {
    DescriptionInvalid,
    NameInvalid,
    TagsInvalid,
}

/// A sticker field value that the platform would refuse.
#[derive(Clone, Copy, Debug, PartialEq, Eq, Structural)]
pub struct StickerValidationError {
    pub kind: StickerValidationErrorType,
}

/// An audit log reason that the platform would refuse.
#[derive(Clone, Copy, Debug, PartialEq, Eq, Structural)]
pub struct AuditLogReasonError {
    /// Length of the refused reason, in characters.
    pub len: usize,
}

/// Whether an optional text holds exactly `s`.
pub open spec fn text_is(o: Option<String>, s: Seq<char>) -> bool {
    match o {
        Some(t) => t@ == s,
        None => false,
    }
}

pub open spec fn length_within(s: Seq<char>, min: usize, max: usize) -> bool {
    min <= s.len() <= max
}

/// Whether a sticker description has an accepted length.
pub fn sticker_description_valid(description: &str) -> (r: bool)
    ensures
        r == length_within(description@, STICKER_DESCRIPTION_LENGTH_MIN, STICKER_DESCRIPTION_LENGTH_MAX),
{
    let n = char_count(description);
    STICKER_DESCRIPTION_LENGTH_MIN <= n && n <= STICKER_DESCRIPTION_LENGTH_MAX
}

/// Whether a sticker name has an accepted length.
pub fn sticker_name_valid(name: &str) -> (r: bool)
    ensures
        r == length_within(name@, STICKER_NAME_LENGTH_MIN, STICKER_NAME_LENGTH_MAX),
{
    let n = char_count(name);
    STICKER_NAME_LENGTH_MIN <= n && n <= STICKER_NAME_LENGTH_MAX
}

/// Whether a sticker's tags have an accepted length.
pub fn sticker_tags_valid(tags: &str) -> (r: bool)
    ensures
        r == length_within(tags@, STICKER_TAGS_LENGTH_MIN, STICKER_TAGS_LENGTH_MAX),
{
    let n = char_count(tags);
    STICKER_TAGS_LENGTH_MIN <= n && n <= STICKER_TAGS_LENGTH_MAX
}

/// Checks an audit log reason and hands it back as owned text.
pub fn validate_reason(reason: &str) -> (r: Result<String, AuditLogReasonError>)
    ensures
        reason@.len() <= AUDIT_REASON_LENGTH_MAX ==> (r matches Ok(s) && s@ == reason@),
        reason@.len() > AUDIT_REASON_LENGTH_MAX ==> r == Err::<String, AuditLogReasonError>(
            AuditLogReasonError { len: reason@.len() as usize },
        ),
{
    let n = char_count(reason);
    if n <= AUDIT_REASON_LENGTH_MAX {
        Ok(reason.to_owned())
    } else {
        Err(AuditLogReasonError { len: n })
    }
}

/// HTTP method of a request.
#[derive(Clone, Copy, Debug, PartialEq, Eq, Structural)]
pub enum Method {
    Delete,
    Patch,
}

/// The endpoint that a request addresses.
#[derive(Clone, Debug, PartialEq, Eq)]
pub enum Route {
    DeleteGuildSticker { guild_id: u64, sticker_id: u64 },
    DeleteWebhookMessage { message_id: u64, thread_id: Option<u64>, token: String, webhook_id: u64 },
    UpdateGuildSticker { guild_id: u64, sticker_id: u64 },
}

/// Fields that a sticker update changes; absent ones stay as they are.
#[derive(Clone, Debug, PartialEq, Eq)]
pub struct UpdateGuildStickerFields {
    pub description: Option<String>,
    pub name: Option<String>,
    pub tags: Option<String>,
}

/// A request ready to be sent: its endpoint, method, body and headers.
#[derive(Clone, Debug, PartialEq, Eq)]
pub struct Request {
    pub method: Method,
    pub route: Route,
    pub body: Option<UpdateGuildStickerFields>,
    pub reason: Option<String>,
    pub use_authorization_token: bool,
}

/// Deletes a followup message created from an interaction. The
/// interaction token authorises it, not the bot token.
pub struct DeleteFollowupMessage {
    application_id: u64,
    message_id: u64,
    token: String,
}

impl DeleteFollowupMessage {
    pub closed spec fn spec_application_id(&self) -> u64 {
        self.application_id
    }

    pub closed spec fn spec_message_id(&self) -> u64 {
        self.message_id
    }

    pub closed spec fn spec_token(&self) -> String {
        self.token
    }

    pub fn new(application_id: u64, token: &str, message_id: u64) -> (r: Self)
        ensures
            r.spec_application_id() == application_id,
            r.spec_message_id() == message_id,
            r.spec_token()@ == token@,
    {
        DeleteFollowupMessage { application_id, message_id, token: token.to_owned() }
    }

    pub fn request(self) -> (r: Request)
        ensures
            r.method == Method::Delete,
            r.route matches Route::DeleteWebhookMessage { message_id, thread_id, token, webhook_id } && message_id
                == self.spec_message_id() && thread_id is None && token@ == self.spec_token()@ && webhook_id
                == self.spec_application_id(),
            r.body is None,
            r.reason is None,
            !r.use_authorization_token,
    {
        Request {
            method: Method::Delete,
            route: Route::DeleteWebhookMessage {
                message_id: self.message_id,
                thread_id: None,
                token: self.token,
                webhook_id: self.application_id,
            },
            body: None,
            reason: None,
            use_authorization_token: false,
        }
    }
}

/// Deletes a guild sticker by the ID of the guild and its ID.
pub struct DeleteGuildSticker {
    guild_id: u64,
    sticker_id: u64,
}

impl DeleteGuildSticker {
    pub closed spec fn spec_guild_id(&self) -> u64 {
        self.guild_id
    }

    pub closed spec fn spec_sticker_id(&self) -> u64 {
        self.sticker_id
    }

    pub fn new(guild_id: u64, sticker_id: u64) -> (r: Self)
        ensures
            r.spec_guild_id() == guild_id,
            r.spec_sticker_id() == sticker_id,
    {
        DeleteGuildSticker { guild_id, sticker_id }
    }

    pub fn request(&self) -> (r: Request)
        ensures
            r.method == Method::Delete,
            r.route == (Route::DeleteGuildSticker { guild_id: self.spec_guild_id(), sticker_id: self.spec_sticker_id() }),
            r.body is None,
            r.reason is None,
            r.use_authorization_token,
    {
        Request {
            method: Method::Delete,
            route: Route::DeleteGuildSticker { guild_id: self.guild_id, sticker_id: self.sticker_id },
            body: None,
            reason: None,
            use_authorization_token: true,
        }
    }
}

/// Updates a sticker in a guild. Each field is checked when it is set, and
/// a refused value leaves nothing changed.
pub struct UpdateGuildSticker {
    fields: UpdateGuildStickerFields,
    guild_id: u64,
    reason: Option<String>,
    sticker_id: u64,
}

impl UpdateGuildSticker {
    pub closed spec fn spec_fields(&self) -> UpdateGuildStickerFields {
        self.fields
    }

    pub closed spec fn spec_guild_id(&self) -> u64 {
        self.guild_id
    }

    pub closed spec fn spec_reason(&self) -> Option<String> {
        self.reason
    }

    pub closed spec fn spec_sticker_id(&self) -> u64 {
        self.sticker_id
    }

    pub fn new(guild_id: u64, sticker_id: u64) -> (r: Self)
        ensures
            r.spec_guild_id() == guild_id,
            r.spec_sticker_id() == sticker_id,
            r.spec_fields().description is None,
            r.spec_fields().name is None,
            r.spec_fields().tags is None,
            r.spec_reason() is None,
    {
        UpdateGuildSticker {
            fields: UpdateGuildStickerFields { description: None, name: None, tags: None },
            guild_id,
            reason: None,
            sticker_id,
        }
    }

    /// Sets the new description.
    pub fn description(self, description: &str) -> (r: Result<Self, StickerValidationError>)
        ensures
            length_within(description@, STICKER_DESCRIPTION_LENGTH_MIN, STICKER_DESCRIPTION_LENGTH_MAX) ==> (r matches Ok(u)
                && text_is(u.spec_fields().description, description@) && u.spec_fields().name == self.spec_fields().name
                && u.spec_fields().tags == self.spec_fields().tags && u.spec_guild_id() == self.spec_guild_id() && u.spec_sticker_id()
                == self.spec_sticker_id() && u.spec_reason() == self.spec_reason()),
            !length_within(description@, STICKER_DESCRIPTION_LENGTH_MIN, STICKER_DESCRIPTION_LENGTH_MAX) ==> r
                == Err::<Self, StickerValidationError>(
                StickerValidationError { kind: StickerValidationErrorType::DescriptionInvalid },
            ),
    {
        if !sticker_description_valid(description) {
            return Err(StickerValidationError { kind: StickerValidationErrorType::DescriptionInvalid });
        }
        let mut u = self;
        u.fields.description = Some(description.to_owned());
        Ok(u)
    }

    /// Sets the new name.
    pub fn name(self, name: &str) -> (r: Result<Self, StickerValidationError>)
        ensures
            length_within(name@, STICKER_NAME_LENGTH_MIN, STICKER_NAME_LENGTH_MAX) ==> (r matches Ok(u)
                && text_is(u.spec_fields().name, name@) && u.spec_fields().description == self.spec_fields().description
                && u.spec_fields().tags == self.spec_fields().tags && u.spec_guild_id() == self.spec_guild_id() && u.spec_sticker_id()
                == self.spec_sticker_id() && u.spec_reason() == self.spec_reason()),
            !length_within(name@, STICKER_NAME_LENGTH_MIN, STICKER_NAME_LENGTH_MAX) ==> r == Err::<
                Self,
                StickerValidationError,
            >(StickerValidationError { kind: StickerValidationErrorType::NameInvalid }),
    {
        if !sticker_name_valid(name) {
            return Err(StickerValidationError { kind: StickerValidationErrorType::NameInvalid });
        }
        let mut u = self;
        u.fields.name = Some(name.to_owned());
        Ok(u)
    }

    /// Sets the new tags.
    pub fn tags(self, tags: &str) -> (r: Result<Self, StickerValidationError>)
        ensures
            length_within(tags@, STICKER_TAGS_LENGTH_MIN, STICKER_TAGS_LENGTH_MAX) ==> (r matches Ok(u)
                && text_is(u.spec_fields().tags, tags@) && u.spec_fields().description == self.spec_fields().description
                && u.spec_fields().name == self.spec_fields().name && u.spec_guild_id() == self.spec_guild_id() && u.spec_sticker_id()
                == self.spec_sticker_id() && u.spec_reason() == self.spec_reason()),
            !length_within(tags@, STICKER_TAGS_LENGTH_MIN, STICKER_TAGS_LENGTH_MAX) ==> r == Err::<
                Self,
                StickerValidationError,
            >(StickerValidationError { kind: StickerValidationErrorType::TagsInvalid }),
    {
        if !sticker_tags_valid(tags) {
            return Err(StickerValidationError { kind: StickerValidationErrorType::TagsInvalid });
        }
        let mut u = self;
        u.fields.tags = Some(tags.to_owned());
        Ok(u)
    }

    /// Attaches an audit log reason.
    pub fn reason(self, reason: &str) -> (r: Result<Self, AuditLogReasonError>)
        ensures
            reason@.len() <= AUDIT_REASON_LENGTH_MAX ==> (r matches Ok(u)
                && text_is(u.spec_reason(), reason@) && u.spec_fields() == self.spec_fields() && u.spec_guild_id() == self.spec_guild_id()
                && u.spec_sticker_id() == self.spec_sticker_id()),
            reason@.len() > AUDIT_REASON_LENGTH_MAX ==> r == Err::<Self, AuditLogReasonError>(
                AuditLogReasonError { len: reason@.len() as usize },
            ),
    {
        match validate_reason(reason) {
            Ok(s) => {
                let mut u = self;
                u.reason = Some(s);
                Ok(u)
            },
            Err(e) => Err(e),
        }
    }

    /// The request that applies the update.
    pub fn request(self) -> (r: Request)
        ensures
            r.method == Method::Patch,
            r.route == (Route::UpdateGuildSticker { guild_id: self.spec_guild_id(), sticker_id: self.spec_sticker_id() }),
            r.body == Some(self.spec_fields()),
            r.reason == self.spec_reason(),
            r.use_authorization_token,
    {
        Request {
            method: Method::Patch,
            route: Route::UpdateGuildSticker { guild_id: self.guild_id, sticker_id: self.sticker_id },
            body: Some(self.fields),
            reason: self.reason,
            use_authorization_token: true,
        }
    }
}

} // verus!
