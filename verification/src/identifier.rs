//! The stable, textual, content-derived handle of an identity. It is the
//! genesis verifying key of the identity's rotation chain; its textual form
//! is that key in lowercase hex.
use vstd::prelude::*;
use vstd::utf8::encode_utf8;
use crate::bytes::{
    all_ascii, bytes_eq, hex_bytes_of, hex_decode_bytes, hex_encode_bytes, is_hex_lower,
    lemma_ascii_decode, lemma_hex_bytes_injective, lemma_hex_bytes_shape, string_from_utf8,
};
use crate::errors::IdentityError;
use vstd::string::StrSliceExecFns;

verus! {

/// The number of bytes of an identifier: the length of an Ed25519 verifying
/// key.
pub const IDENTIFIER_LEN: usize = 32;

/// A stable handle for an identity. Equality is exact byte match.
#[derive(Debug)]
pub struct Identifier {
    pub bytes: Vec<u8>,
}

impl View for Identifier {
    type V = Seq<u8>;

    open spec fn view(&self) -> Seq<u8> {
        self.bytes@
    }
}

impl PartialEq for Identifier {
    fn eq(&self, other: &Identifier) -> (r: bool) {
        bytes_eq(&self.bytes, &other.bytes)
    }
}

impl vstd::std_specs::cmp::PartialEqSpecImpl for Identifier {
    open spec fn obeys_eq_spec() -> bool {
        true
    }

    open spec fn eq_spec(&self, other: &Identifier) -> bool {
        self.bytes@ == other.bytes@
    }
}

/// The hex text, as UTF-8 chars, that stands for the given identifier bytes.
pub open spec fn identifier_text(bytes: Seq<u8>) -> Seq<char> {
    Seq::new(hex_bytes_of(bytes).len(), |i: int| hex_bytes_of(bytes)[i] as char)
}

impl Identifier {
    /// An identifier is valid only when derived from a rotation chain, whose
    /// genesis key is 32 bytes.
    pub open spec fn wf(self) -> bool {
        self@.len() == IDENTIFIER_LEN
    }

    pub fn new(bytes: Vec<u8>) -> (r: Result<Identifier, IdentityError>)
        ensures
            r is Ok <==> bytes@.len() == IDENTIFIER_LEN,
            r matches Ok(id) ==> id@ == bytes@ && id.wf(),
            r matches Err(e) ==> e == IdentityError::InvalidIdentifier,
    {
        if bytes.len() != IDENTIFIER_LEN {
            return Err(IdentityError::InvalidIdentifier);
        }
        Ok(Identifier { bytes })
    }

    /// Byte-for-byte equality.
    pub fn equals(&self, other: &Identifier) -> (r: bool)
        ensures
            r == (self@ == other@),
    {
        bytes_eq(&self.bytes, &other.bytes)
    }

    /// The textual form: sixty-four lowercase hex digits.
    pub fn to_text(&self) -> (r: String)
        requires
            self.wf(),
        ensures
            r@ == identifier_text(self@),
            encode_utf8(r@) == hex_bytes_of(self@),
    {
        let hex = hex_encode_bytes(&self.bytes);
        proof {
            lemma_hex_bytes_shape(self@);
            lemma_ascii_decode(hex@);
        }
        let s = string_from_utf8(&hex);
        match s {
            Some(s) => {
                proof {
                    vstd::utf8::decode_utf8_encode_utf8(hex@);
                    assert(s@ == vstd::utf8::decode_utf8(hex@)) by {
                        vstd::utf8::encode_utf8_decode_utf8(s@);
                    }
                    assert(s@ =~= identifier_text(self@));
                }
                s
            },
            None => {
                proof {
                    assert(false);
                }
                String::new()
            },
        }
    }

    /// Parse the textual form. Succeeds exactly on sixty-four lowercase hex
    /// digits; everything else is an invalid identifier.
    pub fn from_text(s: &str) -> (r: Result<Identifier, IdentityError>)
        ensures
            r is Ok <==> (encode_utf8(s@).len() == 2 * IDENTIFIER_LEN && forall|i: int|
                0 <= i < encode_utf8(s@).len() ==> is_hex_lower(encode_utf8(s@)[i])),
            r matches Ok(id) ==> id.wf() && hex_bytes_of(id@) == encode_utf8(s@) && id@
                == parse_identifier_text(s@),
            r matches Err(e) ==> e == IdentityError::InvalidIdentifier,
    {
        let b = s.as_bytes_vec();
        let decoded = hex_decode_bytes(&b);
        match decoded {
            Some(v) => {
                proof {
                    lemma_hex_bytes_shape(v@);
                    if v@.len() == IDENTIFIER_LEN {
                        lemma_ascii_decode(b@);
                        assert(s@ =~= Seq::new(b@.len(), |i: int| b@[i] as char)) by {
                            vstd::utf8::encode_utf8_decode_utf8(s@);
                        }
                        assert(s@.len() == b@.len());
                        lemma_parse_identifier_text(s@, v@);
                    }
                }
                if v.len() == IDENTIFIER_LEN {
                    Ok(Identifier { bytes: v })
                } else {
                    Err(IdentityError::InvalidIdentifier)
                }
            },
            None => Err(IdentityError::InvalidIdentifier),
        }
    }
}

/// The identifier bytes spelled by well-formed identifier text.
pub open spec fn parse_identifier_text(s: Seq<char>) -> Seq<u8> {
    Seq::new(
        s.len() / 2,
        |i: int| (crate::bytes::hex_val(s[2 * i] as u8) * 16 + crate::bytes::hex_val(
            s[2 * i + 1] as u8,
        )) as u8,
    )
}

/// Hex text determines its source bytes position by position.
proof fn lemma_parse_identifier_text(s: Seq<char>, v: Seq<u8>)
    requires
        s.len() == 2 * v.len(),
        forall|i: int| 0 <= i < s.len() ==> s[i] == hex_bytes_of(v)[i] as char,
        forall|i: int| 0 <= i < hex_bytes_of(v).len() ==> hex_bytes_of(v)[i] < 0x80,
    ensures
        parse_identifier_text(s) == v,
{
    lemma_hex_bytes_shape(v);
    assert forall|i: int| 0 <= i < v.len() implies parse_identifier_text(s)[i] == v[i] by {
        let hi = hex_bytes_of(v)[2 * i];
        let lo = hex_bytes_of(v)[2 * i + 1];
        assert(s[2 * i] as u8 == hi && s[2 * i + 1] as u8 == lo);
        assert(crate::bytes::hex_val(hi) == (v[i] / 16) as u8 && crate::bytes::hex_val(lo) == (
        v[i] % 16) as u8);
    }
    assert(parse_identifier_text(s) =~= v);
}

/// Identifier text determines its bytes: a string whose UTF-8 form is the
/// hex text of a 32-byte value is well-formed identifier text and parses
/// back to exactly that value.
pub proof fn lemma_text_names_bytes(s: Seq<char>, p: Seq<u8>)
    requires
        encode_utf8(s) == hex_bytes_of(p),
        p.len() == IDENTIFIER_LEN,
    ensures
        encode_utf8(s).len() == 2 * IDENTIFIER_LEN,
        forall|i: int| 0 <= i < encode_utf8(s).len() ==> is_hex_lower(encode_utf8(s)[i]),
        parse_identifier_text(s) == p,
{
    lemma_hex_bytes_shape(p);
    lemma_ascii_decode(hex_bytes_of(p));
    vstd::utf8::encode_utf8_decode_utf8(s);
    assert(s =~= Seq::new(hex_bytes_of(p).len(), |i: int| hex_bytes_of(p)[i] as char));
    lemma_parse_identifier_text(s, p);
}

/// Printing an identifier and parsing the text back yields the identifier.
pub proof fn lemma_identifier_text_round_trip(bytes: Seq<u8>, s: Seq<char>)
    requires
        bytes.len() == IDENTIFIER_LEN,
        s == identifier_text(bytes),
    ensures
        parse_identifier_text(s) == bytes,
{
    lemma_hex_bytes_shape(bytes);
    lemma_parse_identifier_text(s, bytes);
}

} // verus!
