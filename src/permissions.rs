use vstd::prelude::*;
use vstd::string::StringSliceAdditionalSpecFns;

verus! {

pub const CREATE_INVITE: u128 = 0x0000_0001;
pub const KICK_MEMBERS: u128 = 0x0000_0002;
pub const BAN_MEMBERS: u128 = 0x0000_0004;
pub const ADMINISTRATOR: u128 = 0x0000_0008;
pub const MANAGE_CHANNELS: u128 = 0x0000_0010;
pub const MANAGE_GUILD: u128 = 0x0000_0020;
pub const ADD_REACTIONS: u128 = 0x0000_0040;
pub const VIEW_AUDIT_LOG: u128 = 0x0000_0080;
pub const PRIORITY_SPEAKER: u128 = 0x0000_0100;
pub const STREAM: u128 = 0x0000_0200;
pub const VIEW_CHANNEL: u128 = 0x0000_0400;
pub const SEND_MESSAGES: u128 = 0x0000_0800;
pub const SEND_TTS_MESSAGES: u128 = 0x0000_1000;
pub const MANAGE_MESSAGES: u128 = 0x0000_2000;
pub const EMBED_LINKS: u128 = 0x0000_4000;
pub const ATTACH_FILES: u128 = 0x0000_8000;
pub const READ_MESSAGE_HISTORY: u128 = 0x0001_0000;
pub const MENTION_EVERYONE: u128 = 0x0002_0000;
pub const USE_EXTERNAL_EMOJIS: u128 = 0x0004_0000;
pub const VIEW_GUILD_INSIGHTS: u128 = 0x0008_0000;
pub const CONNECT: u128 = 0x0010_0000;
pub const SPEAK: u128 = 0x0020_0000;
pub const MUTE_MEMBERS: u128 = 0x0040_0000;
pub const DEAFEN_MEMBERS: u128 = 0x0080_0000;
pub const MOVE_MEMBERS: u128 = 0x0100_0000;
pub const USE_VAD: u128 = 0x0200_0000;
pub const CHANGE_NICKNAME: u128 = 0x0400_0000;
pub const MANAGE_NICKNAMES: u128 = 0x0800_0000;
pub const MANAGE_ROLES: u128 = 0x1000_0000;
pub const MANAGE_WEBHOOKS: u128 = 0x2000_0000;
pub const MANAGE_EMOJIS: u128 = 0x4000_0000;

/// Every named permission bit.
pub const ALL_PERMISSIONS: u128 = 0x7FFF_FFFF;

/// Why a permission set could not be encoded or decoded.
#[derive(Clone, Copy, Debug, PartialEq, Eq, Structural)]
pub enum EncodingError {
    /// The bits do not fit in a `u64`.
    TooWide,
    /// The text is not an unsigned decimal number that fits in a `u128`.
    NotDecimal,
}

/// The character of a decimal digit.
pub open spec fn digit_char(d: int) -> char {
    seq!['0', '1', '2', '3', '4', '5', '6', '7', '8', '9'][d]
}

/// Decimal digits of `n`, most significant first, without leading zeros.
pub open spec fn decimal_digits(n: nat) -> Seq<char>
    decreases n,
{
    if n < 10 {
        seq![digit_char(n as int)]
    } else {
        decimal_digits(n / 10).push(digit_char((n % 10) as int))
    }
}

pub open spec fn is_digit(b: u8) -> bool {
    48 <= b <= 57
}

/// Value of a run of decimal digit bytes.
pub open spec fn digits_value(s: Seq<u8>) -> nat
    decreases s.len(),
{
    if s.len() == 0 {
        0
    } else {
        let d: nat = if is_digit(s.last()) { (s.last() - 48) as nat } else { 0 };
        digits_value(s.drop_last()) * 10 + d
    }
}

/// The text after an optional leading `+`.
pub open spec fn unsigned_part(s: Seq<u8>) -> Seq<u8> {
    if s.len() > 0 && s[0] == 43 {
        s.skip(1)
    } else {
        s
    }
}

/// The number that `s` writes: an optional `+`, then one or more decimal
/// digits, with a value that fits in a `u128`.
pub open spec fn decimal_value(s: Seq<u8>) -> Option<u128> {
    let t = unsigned_part(s);
    if t.len() > 0 && (forall|i: int| 0 <= i < t.len() ==> is_digit(#[trigger] t[i])) && digits_value(t)
        <= u128::MAX {
        Some(digits_value(t) as u128)
    } else {
        None
    }
}

proof fn lemma_digits_value_grows(s: Seq<u8>, k: int)
    requires
        0 <= k <= s.len(),
    ensures
        digits_value(s.subrange(0, k)) <= digits_value(s),
    decreases s.len(),
{
    if k < s.len() {
        assert(s.drop_last().subrange(0, k) =~= s.subrange(0, k));
        lemma_digits_value_grows(s.drop_last(), k);
    } else {
        assert(s.subrange(0, k) =~= s);
    }
}

/// Relies on `u128::to_string` (its `Display`): the decimal digits of the
/// value, without sign or leading zeros.
#[verifier::external_body]
fn decimal_text(n: u128) -> (r: String)
    ensures
        r@ == decimal_digits(n as nat),
{
    n.to_string()
}

/// Reads an unsigned decimal number, as `str::parse::<u128>` does: an
/// optional `+`, then at least one digit, with a value that fits.
pub fn parse_u128(s: &str) -> (r: Option<u128>)
    ensures
        r == decimal_value(s.spec_bytes()),
{
    let b = s.as_bytes();
    let ghost t = unsigned_part(b@);
    let mut i: usize = 0;
    if b.len() > 0 && b[0] == 43 {
        i = 1;
    }
    let start = i;
    assert(t =~= b@.subrange(start as int, b@.len() as int));
    if start == b.len() {
        return None;
    }
    let mut acc: u128 = 0;
    while i < b.len()
        invariant
            start <= i <= b@.len(),
            start < b@.len(),
            t == b@.subrange(start as int, b@.len() as int),
            t == unsigned_part(b@),
            b@ == s.spec_bytes(),
            forall|j: int| start <= j < i ==> is_digit(#[trigger] b@[j]),
            acc as nat == digits_value(b@.subrange(start as int, i as int)),
        decreases b@.len() - i,
    {
        let c = b[i];
        if c < 48 || c > 57 {
            assert(!is_digit(t[i - start]));
            assert(decimal_value(b@) is None);
            return None;
        }
        let d = (c - 48) as u128;
        let ghost next = b@.subrange(start as int, i + 1);
        proof {
            assert(next.drop_last() =~= b@.subrange(start as int, i as int));
            assert(t.subrange(0, i + 1 - start) =~= next);
            lemma_digits_value_grows(t, i + 1 - start);
            assert(next.last() == c);
            assert(digits_value(next) == digits_value(next.drop_last()) * 10 + d);
        }
        match acc.checked_mul(10) {
            Some(m) => match m.checked_add(d) {
                Some(a) => {
                    acc = a;
                },
                None => {
                    assert(decimal_value(b@) is None);
                    return None;
                },
            },
            None => {
                proof {
                    assert(digits_value(next) >= acc * 10) by (nonlinear_arith)
                        requires
                            digits_value(next) == acc * 10 + d,
                            d >= 0,
                    ;
                    assert(decimal_value(b@) is None);
                }
                return None;
            },
        }
        i = i + 1;
    }
    assert(b@.subrange(start as int, i as int) =~= t);
    Some(acc)
}

/// A set of permission bits.
#[derive(Clone, Copy, Debug, PartialEq, Eq, Structural, Hash)]
pub struct Permissions {
    bits: u128,
}

impl View for Permissions {
    type V = u128;

    closed spec fn view(&self) -> u128 {
        self.bits
    }
}

impl Permissions {
    /// The empty set.
    pub fn empty() -> (r: Self)
        ensures
            r@ == 0,
    {
        Permissions { bits: 0 }
    }

    /// Every named permission.
    pub fn all() -> (r: Self)
        ensures
            r@ == ALL_PERMISSIONS,
    {
        Permissions { bits: ALL_PERMISSIONS }
    }

    /// The raw bits.
    pub fn bits(&self) -> (r: u128)
        ensures
            r == self@,
    {
        self.bits
    }

    /// The named permissions among `bits`; other bits are dropped.
    pub fn from_bits_truncate(bits: u128) -> (r: Self)
        ensures
            r@ == bits & ALL_PERMISSIONS,
    {
        Permissions { bits: bits & ALL_PERMISSIONS }
    }

    /// The set with exactly `bits`, where every one of them is named.
    pub fn from_bits(bits: u128) -> (r: Option<Self>)
        ensures
            r matches Some(p) ==> p@ == bits,
            r is Some <==> bits & !ALL_PERMISSIONS == 0,
    {
        if bits & !ALL_PERMISSIONS == 0 {
            Some(Permissions { bits })
        } else {
            None
        }
    }

    /// Whether every bit of `flags` is set.
    pub fn contains(&self, flags: u128) -> (r: bool)
        ensures
            r == (self@ & flags == flags),
    {
        self.bits & flags == flags
    }

    /// The bits of both sets.
    pub fn union(&self, other: Permissions) -> (r: Self)
        ensures
            r@ == self@ | other@,
    {
        Permissions { bits: self.bits | other.bits }
    }

    /// The bits as a `u64`, for numeric wire formats; fails rather than
    /// truncating where they do not fit.
    pub fn to_u64(&self) -> (r: Result<u64, EncodingError>)
        ensures
            self@ <= u64::MAX ==> r == Ok::<u64, EncodingError>(self@ as u64),
            self@ > u64::MAX ==> r == Err::<u64, EncodingError>(EncodingError::TooWide),
    {
        if self.bits <= u64::MAX as u128 {
            Ok(self.bits as u64)
        } else {
            Err(EncodingError::TooWide)
        }
    }

    /// The bits as decimal text, which loses nothing at any width.
    pub fn to_text(&self) -> (r: String)
        ensures
            r@ == decimal_digits(self@ as nat),
    {
        decimal_text(self.bits)
    }

    /// Decodes a numeric wire value; unnamed bits are dropped.
    pub fn from_u64(v: u64) -> (r: Self)
        ensures
            r@ == (v as u128) & ALL_PERMISSIONS,
    {
        Self::from_bits_truncate(v as u128)
    }

    /// Decodes a textual wire value; unnamed bits are dropped.
    pub fn from_text(s: &str) -> (r: Result<Self, EncodingError>)
        ensures
            match decimal_value(s.spec_bytes()) {
                Some(n) => r matches Ok(p) && p@ == n & ALL_PERMISSIONS,
                None => r == Err::<Self, EncodingError>(EncodingError::NotDecimal),
            },
    {
        match parse_u128(s) {
            Some(n) => Ok(Self::from_bits_truncate(n)),
            None => Err(EncodingError::NotDecimal),
        }
    }
}

} // verus!
