use vstd::prelude::*;
use vstd::string::*;

verus! {

/// The lower-case hexadecimal digit for `nibble`, a value below sixteen.
pub open spec fn hex_digit(nibble: u128) -> char {
    seq![
        '0', '1', '2', '3', '4', '5', '6', '7', '8', '9', 'a', 'b', 'c', 'd', 'e', 'f',
    ][nibble as int]
}

/// The hexadecimal digit of `value` at `position`, the highest digit at
/// position nought and the lowest at position 31.
pub open spec fn digit_at(value: u128, position: int) -> char {
    hex_digit((value >> ((4 * (31 - position)) as u128)) & 0xf)
}

/// The text of a 128-bit identifier at the boundary: its thirty-two
/// hexadecimal digits, the highest first, in groups of eight, four, four,
/// four and twelve with a hyphen between one group and the next.
pub open spec fn hyphenated_text(value: u128) -> Seq<char> {
    Seq::new(
        36,
        |place: int|
            if place == 8 || place == 13 || place == 18 || place == 23 {
                '-'
            } else if place < 8 {
                digit_at(value, place)
            } else if place < 13 {
                digit_at(value, place - 1)
            } else if place < 18 {
                digit_at(value, place - 2)
            } else if place < 23 {
                digit_at(value, place - 3)
            } else {
                digit_at(value, place - 4)
            },
    )
}

/// The identifier that a text denotes, if it denotes one.
pub uninterp spec fn parsed_identifier(text: Seq<char>) -> Option<u128>;

/// Whether `value` carries the marks of a randomly drawn identifier: version
/// four, and the variant of RFC 4122.
pub open spec fn is_random_identifier(value: u128) -> bool {
    value & 0x0000_0000_0000_f000_c000_0000_0000_0000u128
        == 0x0000_0000_0000_4000_8000_0000_0000_0000u128
}

/// A fresh random identifier.
///
/// Trusted: calls `uuid::Uuid::new_v4`, which draws 128 random bits and
/// overwrites six of them with the version and the variant. Nothing else is
/// claimed of the result.
#[verifier::external_body]
pub(crate) fn random_identifier() -> (value: u128)
    ensures
        is_random_identifier(value),
{
    uuid::Uuid::new_v4().as_u128()
}

/// Trusted: calls `uuid::Uuid::from_u128` and `uuid::Uuid::hyphenated` and
/// formats the result, which is the value's bytes, the highest first, in
/// lower-case hexadecimal digits with a hyphen after the eighth, twelfth,
/// sixteenth and twentieth digit.
#[verifier::external_body]
pub(crate) fn format_hyphenated(value: u128) -> (text: String)
    ensures
        text@ == hyphenated_text(value),
{
    uuid::Uuid::from_u128(value).hyphenated().to_string()
}

/// Trusted: calls `uuid::Uuid::parse_str`. Whether a text is accepted, and
/// as which value, depends on the text alone and is known here only by its
/// name.
#[verifier::external_body]
pub(crate) fn parse_identifier(text: &str) -> (value: Option<u128>)
    ensures
        value == parsed_identifier(text@),
{
    match uuid::Uuid::parse_str(text) {
        Ok(id) => Some(id.as_u128()),
        Err(_) => None,
    }
}

/// Names one game among those that run at the same time.
#[derive(Debug, Clone, Copy, Hash, PartialEq, Eq, Structural)]
pub struct GameId(pub u128);

/// Proves who a caller is. Never shown to other clients.
#[derive(Debug, Clone, Copy, Hash, PartialEq, Eq, Structural)]
pub struct AuthToken(pub u128);

/// Names one participant of a game.
#[derive(Debug, Clone, Copy, Hash, PartialEq, Eq, Structural)]
pub struct PlayerId(pub u128);

impl GameId {
    /// A fresh random identifier.
    pub fn generate() -> (id: Self)
        ensures
            is_random_identifier(id.0),
    {
        GameId(random_identifier())
    }

    pub fn to_string(&self) -> (text: String)
        ensures
            text@ == hyphenated_text(self.0),
    {
        format_hyphenated(self.0)
    }

    /// Reads an identifier as a client wrote it.
    pub fn parse(text: &str) -> (id: Option<Self>)
        ensures
            id == match parsed_identifier(text@) {
                Some(value) => Some(GameId(value)),
                None => None,
            },
    {
        match parse_identifier(text) {
            Some(value) => Some(GameId(value)),
            None => None,
        }
    }
}

impl AuthToken {
    /// A fresh random token.
    pub fn generate() -> (token: Self)
        ensures
            is_random_identifier(token.0),
    {
        AuthToken(random_identifier())
    }

    pub fn to_string(&self) -> (text: String)
        ensures
            text@ == hyphenated_text(self.0),
    {
        format_hyphenated(self.0)
    }

    /// Reads a token as a client wrote it.
    pub fn parse(text: &str) -> (token: Option<Self>)
        ensures
            token == match parsed_identifier(text@) {
                Some(value) => Some(AuthToken(value)),
                None => None,
            },
    {
        match parse_identifier(text) {
            Some(value) => Some(AuthToken(value)),
            None => None,
        }
    }
}

impl PlayerId {
    /// A fresh random identifier.
    pub fn generate() -> (id: Self)
        ensures
            is_random_identifier(id.0),
    {
        PlayerId(random_identifier())
    }

    pub fn to_string(&self) -> (text: String)
        ensures
            text@ == hyphenated_text(self.0),
    {
        format_hyphenated(self.0)
    }

    /// Reads an identifier as a client wrote it.
    pub fn parse(text: &str) -> (id: Option<Self>)
        ensures
            id == match parsed_identifier(text@) {
                Some(value) => Some(PlayerId(value)),
                None => None,
            },
    {
        match parse_identifier(text) {
            Some(value) => Some(PlayerId(value)),
            None => None,
        }
    }
}

/// The name of a broadcast channel made from a random identifier.
pub open spec fn channel_name(identifier: u128) -> Seq<char> {
    "jpdy.chan."@ + hyphenated_text(identifier)
}

/// The broadcast channel that belongs to `identifier`.
pub fn make_channel_name(identifier: u128) -> (name: String)
    ensures
        name@ == channel_name(identifier),
{
    let mut name = String::from_str("jpdy.chan.");
    let tail = format_hyphenated(identifier);
    name.append(tail.as_str());
    name
}

} // verus!
