//! Identity tickets: 128-bit UUID values and their canonical text form.
use vstd::prelude::*;

verus! {

/// The value that `uuid::Uuid::parse_str` yields for a text, as a 128-bit
/// big-endian integer, or `None` where the text is not a UUID.
pub uninterp spec fn uuid_parse(s: Seq<char>) -> Option<u128>;

/// The canonical (lower-case, hyphenated) text of the UUID with these bits.
pub uninterp spec fn uuid_text(bits: u128) -> Seq<char>;

/// The characters that a hyphenated UUID text is made of.
pub open spec fn is_uuid_char(c: char) -> bool {
    ('0' <= c && c <= '9') || ('a' <= c && c <= 'f') || c == '-'
}

/// An identity ticket: the bearer token that names a client across
/// reconnects.  It is the registry key.
#[derive(Clone, Copy, Debug, PartialEq, Eq, Hash, Structural)]
pub struct Ticket {
    pub bits: u128,
}

/// Relies on `uuid::Uuid::parse_str` (and `Uuid::as_u128`): the parse of a
/// text depends on the text alone.
#[verifier::external_body]
fn parse_uuid(s: &str) -> (r: Option<u128>)
    ensures
        r == uuid_parse(s@),
{
    uuid::Uuid::parse_str(s).ok().map(|u| u.as_u128())
}

/// Relies on `uuid::Uuid::from_u128` and its `Display`: 36 characters,
/// lower-case hexadecimal digits and hyphens, which `Uuid::parse_str`
/// reads back to the same value.
#[verifier::external_body]
fn format_uuid(bits: u128) -> (r: String)
    ensures
        r@ == uuid_text(bits),
        r@.len() == 36,
        forall|i: int| 0 <= i < r@.len() ==> is_uuid_char(#[trigger] r@[i]),
        uuid_parse(r@) == Some(bits),
{
    uuid::Uuid::from_u128(bits).to_string()
}

/// Relies on `uuid::Uuid::new_v4`: a random version-4 UUID.  Nothing is
/// known of the value.
#[verifier::external_body]
fn random_uuid() -> (r: u128) {
    uuid::Uuid::new_v4().as_u128()
}

impl Ticket {
    /// A freshly generated random ticket.
    pub fn generate() -> (t: Ticket) {
        Ticket { bits: random_uuid() }
    }

    /// Reads a ticket from its text; `None` where the text is not a UUID.
    pub fn parse(s: &str) -> (r: Option<Ticket>)
        ensures
            r == (match uuid_parse(s@) {
                Some(b) => Some(Ticket { bits: b }),
                None => None,
            }),
    {
        match parse_uuid(s) {
            Some(b) => Some(Ticket { bits: b }),
            None => None,
        }
    }

    /// The canonical text of the ticket.
    pub fn to_text(&self) -> (r: String)
        ensures
            r@ == uuid_text(self.bits),
            r@.len() == 36,
            forall|i: int| 0 <= i < r@.len() ==> is_uuid_char(#[trigger] r@[i]),
            uuid_parse(r@) == Some(self.bits),
    {
        format_uuid(self.bits)
    }
}

} // verus!
