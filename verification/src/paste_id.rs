//! Collision-resistant paste identifiers: generation of fresh tokens and
//! validation of externally supplied ones.
//!
//! A canonical token is 36 characters long: five groups of lowercase
//! hexadecimal digits of lengths 8, 4, 4, 4 and 12, joined by `-`. Fresh
//! tokens are drawn from a 128-bit-class random space, so no registry
//! lookup is needed to keep identifiers practically unique.

use vstd::prelude::*;

use crate::models::PasteError;

verus! {

/// The length of a canonical token.
pub const TOKEN_LEN: usize = 36;

/// The positions of the canonical token that hold the `-` separator.
pub open spec fn is_sep_pos(i: int) -> bool {
    i == 8 || i == 13 || i == 18 || i == 23
}

/// A digit of the token alphabet: `0`..`9` or `a`..`f`.
pub open spec fn is_token_digit(c: char) -> bool {
    ('0' as u32) <= (c as u32) <= ('9' as u32) || ('a' as u32) <= (c as u32) <= ('f' as u32)
}

/// What the character at position `i` of a token must be.
pub open spec fn token_char_ok(s: Seq<char>, i: int) -> bool {
    if is_sep_pos(i) {
        s[i] == '-'
    } else {
        is_token_digit(s[i])
    }
}

/// A token in exactly the generation format: fixed length, fixed alphabet,
/// separators at fixed positions.
pub open spec fn valid_token(s: Seq<char>) -> bool {
    &&& s.len() == TOKEN_LEN
    &&& forall|i: int| 0 <= i < s.len() ==> #[trigger] token_char_ok(s, i)
}

/// What validation makes of an external token: the token itself exactly when
/// it is in the generation format, nothing otherwise.
pub open spec fn parse_spec(s: Seq<char>) -> Option<Seq<char>> {
    if valid_token(s) {
        Some(s)
    } else {
        None
    }
}

/// An opaque, printable token that identifies one paste.
#[derive(Debug)]
pub struct PasteId {
    token: String,
}

impl View for PasteId {
    type V = Seq<char>;

    closed spec fn view(&self) -> Seq<char> {
        self.token@
    }
}

/// Relies on `uuid::Uuid::new_v4` and on `uuid`'s `Display` impl: a fresh
/// random identifier rendered in the hyphenated form, which is 36 lowercase
/// hexadecimal digits with `-` at positions 8, 13, 18 and 23.
#[verifier::external_body]
fn fresh_token() -> (r: String)
    ensures
        valid_token(r@),
{
    uuid::Uuid::new_v4().to_string()
}

impl PasteId {
    /// The identifier is in the generation format.
    pub open spec fn wf(self) -> bool {
        valid_token(self@)
    }

    /// Mint a fresh identifier. The token is random; all that is promised of
    /// it is the generation format.
    pub fn new() -> (r: PasteId)
        ensures
            r.wf(),
    {
        PasteId { token: fresh_token() }
    }

    /// Validate an externally supplied token. Accepts exactly the generation
    /// format; anything else is a `ValidationError`, which the request
    /// boundary reports as "not found".
    pub fn from_param(param: &str) -> (r: Result<PasteId, PasteError>)
        ensures
            (r matches Ok(id)) <==> parse_spec(param@) is Some,
            r matches Ok(id) ==> id@ == param@ && id.wf(),
            r matches Err(e) ==> e == PasteError::ValidationError && parse_spec(param@) is None,
    {
        if param.unicode_len() != TOKEN_LEN {
            return Err(PasteError::ValidationError);
        }
        let mut i: usize = 0;
        while i < TOKEN_LEN
            invariant
                param@.len() == TOKEN_LEN,
                i <= TOKEN_LEN,
                forall|j: int| 0 <= j < i ==> #[trigger] token_char_ok(param@, j),
            decreases TOKEN_LEN - i,
        {
            let c = param.get_char(i);
            let ok = if i == 8 || i == 13 || i == 18 || i == 23 {
                c == '-'
            } else {
                let v = c as u32;
                (('0' as u32) <= v && v <= ('9' as u32)) || (('a' as u32) <= v && v <= ('f' as u32))
            };
            if !ok {
                assert(!token_char_ok(param@, i as int));
                return Err(PasteError::ValidationError);
            }
            i += 1;
        }
        Ok(PasteId { token: param.to_owned() })
    }

    /// The token itself, borrowed.
    pub fn as_str(&self) -> (r: &str)
        ensures
            r@ == self@,
    {
        self.token.as_str()
    }

    /// The external representation of the identifier.
    pub fn to_string(&self) -> (r: String)
        ensures
            r@ == self@,
    {
        self.token.clone()
    }
}

impl Clone for PasteId {
    fn clone(&self) -> (r: Self)
        ensures
            r@ == self@,
    {
        PasteId { token: self.token.clone() }
    }
}

/// Round trip: the external representation of a well-formed identifier
/// validates back to exactly that identifier, so rendering and parsing an
/// identifier never changes it.
pub proof fn lemma_token_roundtrip(id: PasteId)
    requires
        id.wf(),
    ensures
        parse_spec(id@) == Some(id@),
{
}

} // verus!
