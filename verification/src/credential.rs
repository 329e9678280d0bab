//! Credentials: signed, expiring attribute assertions about a subject
//! identity, issued under a purpose-key attestation and verified against a
//! caller-supplied set of trusted authorities. The wire bundle carries the
//! credential together with the attestation, so a verifier needs no
//! pre-fetched issuer keys.
use vstd::prelude::*;
use crate::bytes::{be_val, copy_bytes, push_all, push_u64_be, read_u64_be, sub_bytes, u64_be,
    lemma_u64_be_round_trip};
use crate::crypto::ed25519_verify;
use crate::errors::IdentityError;
use crate::identifier::Identifier;
use crate::identity::{EventV, Identity};
use crate::purpose_key::{
    attestation_bytes, attestation_valid, attestation_wf, parse_attestation, AttestationV,
    Purpose, PurposeKeyAttestation,
};
use crate::vault::SoftwareVault;

verus! {

/// One attribute: a named byte string about the subject.
#[derive(Debug)]
pub struct Attribute {
    pub name: Vec<u8>,
    pub value: Vec<u8>,
}

pub ghost struct AttributeV {
    pub name: Seq<u8>,
    pub value: Seq<u8>,
}

impl View for Attribute {
    type V = AttributeV;

    open spec fn view(&self) -> AttributeV {
        AttributeV { name: self.name@, value: self.value@ }
    }
}

/// What a credential asserts: attributes about a subject, under a schema,
/// until an absolute expiry time.
#[derive(Debug)]
pub struct CredentialData {
    pub subject: Identifier,
    pub schema: u64,
    pub attributes: Vec<Attribute>,
    pub expires_at: u64,
}

pub ghost struct CredentialDataV {
    pub subject: Seq<u8>,
    pub schema: u64,
    pub attributes: Seq<AttributeV>,
    pub expires_at: u64,
}

impl View for CredentialData {
    type V = CredentialDataV;

    open spec fn view(&self) -> CredentialDataV {
        CredentialDataV {
            subject: self.subject@,
            schema: self.schema,
            attributes: self.attributes@.map(|i: int, a: Attribute| a@),
            expires_at: self.expires_at,
        }
    }
}

/// A credential: its data, signed by the issuer's credential-signing
/// purpose key over the data's byte form.
#[derive(Debug)]
pub struct Credential {
    pub data: CredentialData,
    pub signature: Vec<u8>,
}

pub ghost struct CredentialV {
    pub data: CredentialDataV,
    pub signature: Seq<u8>,
}

impl View for Credential {
    type V = CredentialV;

    open spec fn view(&self) -> CredentialV {
        CredentialV { data: self.data@, signature: self.signature@ }
    }
}

/// The wire bundle: the credential plus the purpose-key attestation needed
/// to validate its signature.
#[derive(Debug)]
pub struct CredentialAndPurposeKey {
    pub credential: Credential,
    pub purpose_key_attestation: PurposeKeyAttestation,
}

pub ghost struct BundleV {
    pub credential: CredentialV,
    pub attestation: AttestationV,
}

impl View for CredentialAndPurposeKey {
    type V = BundleV;

    open spec fn view(&self) -> BundleV {
        BundleV { credential: self.credential@, attestation: self.purpose_key_attestation@ }
    }
}

/// A well-shaped attribute: its lengths fit the wire format's length fields.
pub open spec fn attribute_wf(a: AttributeV) -> bool {
    a.name.len() <= u64::MAX && a.value.len() <= u64::MAX
}

/// Well-shaped credential data.
pub open spec fn data_wf(d: CredentialDataV) -> bool {
    &&& d.subject.len() == 32
    &&& d.attributes.len() <= u64::MAX
    &&& forall|i: int| 0 <= i < d.attributes.len() ==> attribute_wf(#[trigger] d.attributes[i])
}

/// A well-shaped credential.
pub open spec fn credential_wf(c: CredentialV) -> bool {
    data_wf(c.data) && c.signature.len() == 64
}

/// A well-shaped bundle.
pub open spec fn bundle_wf(b: BundleV) -> bool {
    credential_wf(b.credential) && attestation_wf(b.attestation)
}

/// The byte form of one attribute: length-prefixed name, then
/// length-prefixed value.
pub open spec fn attribute_bytes(a: AttributeV) -> Seq<u8> {
    u64_be(a.name.len() as u64) + a.name + u64_be(a.value.len() as u64) + a.value
}

/// The byte form of a run of attributes.
pub open spec fn attributes_bytes(s: Seq<AttributeV>) -> Seq<u8>
    decreases s.len(),
{
    if s.len() == 0 {
        Seq::empty()
    } else {
        attribute_bytes(s[0]) + attributes_bytes(s.drop_first())
    }
}

/// The bytes that a credential signs: subject, schema, expiry, attribute
/// count, then the attributes.
pub open spec fn data_bytes(d: CredentialDataV) -> Seq<u8> {
    d.subject + u64_be(d.schema) + u64_be(d.expires_at) + u64_be(d.attributes.len() as u64)
        + attributes_bytes(d.attributes)
}

/// The byte form of a credential: its data followed by the signature.
pub open spec fn credential_bytes(c: CredentialV) -> Seq<u8> {
    data_bytes(c.data) + c.signature
}

/// The byte form of the wire bundle: its total length, the attestation,
/// then the credential.
pub open spec fn bundle_bytes(b: BundleV) -> Seq<u8> {
    let body = attestation_bytes(b.attestation) + credential_bytes(b.credential);
    u64_be((8 + body.len()) as u64) + body
}

/// The attributes encoded at the head of `bs`, when `bs` holds exactly `n`
/// attributes and nothing else.
pub open spec fn parse_attributes(bs: Seq<u8>, n: int) -> Option<Seq<AttributeV>>
    decreases n,
{
    if n <= 0 {
        if n == 0 && bs.len() == 0 {
            Some(Seq::empty())
        } else {
            None
        }
    } else if bs.len() < 8 {
        None
    } else {
        let kl = be_val(bs.subrange(0, 8)) as int;
        if bs.len() < 16 + kl {
            None
        } else {
            let vl = be_val(bs.subrange(8 + kl, 16 + kl)) as int;
            if bs.len() < 16 + kl + vl {
                None
            } else {
                match parse_attributes(bs.subrange(16 + kl + vl, bs.len() as int), n - 1) {
                    None => None,
                    Some(rest) => Some(
                        seq![
                            AttributeV {
                                name: bs.subrange(8, 8 + kl),
                                value: bs.subrange(16 + kl, 16 + kl + vl),
                            },
                        ] + rest,
                    ),
                }
            }
        }
    }
}

/// The credential data encoded in `bs`, when `bs` is exactly one well-formed
/// encoding.
pub open spec fn parse_data(bs: Seq<u8>) -> Option<CredentialDataV> {
    if bs.len() < 56 {
        None
    } else {
        let n = be_val(bs.subrange(48, 56)) as int;
        match parse_attributes(bs.subrange(56, bs.len() as int), n) {
            None => None,
            Some(attrs) => Some(
                CredentialDataV {
                    subject: bs.subrange(0, 32),
                    schema: be_val(bs.subrange(32, 40)),
                    expires_at: be_val(bs.subrange(40, 48)),
                    attributes: attrs,
                },
            ),
        }
    }
}

/// The credential encoded in `bs`: its trailing 64 bytes are the signature.
pub open spec fn parse_credential(bs: Seq<u8>) -> Option<CredentialV> {
    if bs.len() < 120 {
        None
    } else {
        match parse_data(bs.subrange(0, bs.len() - 64)) {
            None => None,
            Some(d) => Some(
                CredentialV { data: d, signature: bs.subrange(bs.len() - 64, bs.len() as int) },
            ),
        }
    }
}

/// The bundle encoded in `bs`: a total length that must match exactly, the
/// attestation, then the credential.
pub open spec fn parse_bundle(bs: Seq<u8>) -> Option<BundleV> {
    if bs.len() < 137 || be_val(bs.subrange(0, 8)) != bs.len() {
        None
    } else {
        match (parse_attestation(bs.subrange(8, 137)), parse_credential(
            bs.subrange(137, bs.len() as int),
        )) {
            (Some(a), Some(c)) => Some(BundleV { credential: c, attestation: a }),
            _ => None,
        }
    }
}

proof fn lemma_attributes_bytes_concat(a: Seq<AttributeV>, b: Seq<AttributeV>)
    ensures
        attributes_bytes(a + b) == attributes_bytes(a) + attributes_bytes(b),
    decreases a.len(),
{
    if a.len() == 0 {
        assert(a + b =~= b);
        assert(attributes_bytes(a) + attributes_bytes(b) =~= attributes_bytes(b));
    } else {
        assert((a + b).drop_first() =~= a.drop_first() + b);
        lemma_attributes_bytes_concat(a.drop_first(), b);
        assert(attributes_bytes(a + b) =~= attributes_bytes(a) + attributes_bytes(b));
    }
}

/// Encoded attributes parse back to themselves.
proof fn lemma_attributes_parse_back(s: Seq<AttributeV>)
    requires
        forall|i: int| 0 <= i < s.len() ==> attribute_wf(#[trigger] s[i]),
    ensures
        parse_attributes(attributes_bytes(s), s.len() as int) == Some(s),
    decreases s.len(),
{
    let bs = attributes_bytes(s);
    if s.len() == 0 {
    } else {
        let a = s[0];
        let rest = attributes_bytes(s.drop_first());
        let kl = a.name.len() as int;
        let vl = a.value.len() as int;
        lemma_u64_be_round_trip(a.name.len() as u64);
        lemma_u64_be_round_trip(a.value.len() as u64);
        assert(bs =~= attribute_bytes(a) + rest);
        assert(bs.subrange(0, 8) =~= u64_be(a.name.len() as u64));
        assert(bs.len() >= 16 + kl + vl);
        assert(bs.subrange(8 + kl, 16 + kl) =~= u64_be(a.value.len() as u64));
        assert(bs.subrange(8, 8 + kl) =~= a.name);
        assert(bs.subrange(16 + kl, 16 + kl + vl) =~= a.value);
        assert(bs.subrange(16 + kl + vl, bs.len() as int) =~= rest);
        lemma_attributes_parse_back(s.drop_first());
        assert(seq![
            AttributeV { name: a.name, value: a.value },
        ] + s.drop_first() =~= s);
        assert(AttributeV { name: a.name, value: a.value } == a);
    }
}

/// Encoded credential data parses back to itself.
proof fn lemma_data_parses_back(d: CredentialDataV)
    requires
        data_wf(d),
    ensures
        parse_data(data_bytes(d)) == Some(d),
{
    let bs = data_bytes(d);
    lemma_u64_be_round_trip(d.schema);
    lemma_u64_be_round_trip(d.expires_at);
    lemma_u64_be_round_trip(d.attributes.len() as u64);
    assert(bs.len() >= 56);
    assert(bs.subrange(0, 32) =~= d.subject);
    assert(bs.subrange(32, 40) =~= u64_be(d.schema));
    assert(bs.subrange(40, 48) =~= u64_be(d.expires_at));
    assert(bs.subrange(48, 56) =~= u64_be(d.attributes.len() as u64));
    assert(bs.subrange(56, bs.len() as int) =~= attributes_bytes(d.attributes));
    lemma_attributes_parse_back(d.attributes);
}

/// An encoded credential parses back to itself.
proof fn lemma_credential_parses_back(c: CredentialV)
    requires
        credential_wf(c),
    ensures
        parse_credential(credential_bytes(c)) == Some(c),
{
    let bs = credential_bytes(c);
    assert(data_bytes(c.data).len() >= 56);
    assert(bs.len() >= 120);
    assert(bs.subrange(0, bs.len() - 64) =~= data_bytes(c.data));
    assert(bs.subrange(bs.len() - 64, bs.len() as int) =~= c.signature);
    lemma_data_parses_back(c.data);
}

/// Round trip of the bundle wire format: a well-formed bundle's encoding
/// decodes back to exactly the same bundle.
pub proof fn lemma_bundle_parses_back(b: BundleV)
    requires
        bundle_wf(b),
        bundle_bytes(b).len() <= u64::MAX,
    ensures
        parse_bundle(bundle_bytes(b)) == Some(b),
{
    let body = attestation_bytes(b.attestation) + credential_bytes(b.credential);
    let bs = bundle_bytes(b);
    lemma_u64_be_round_trip((8 + body.len()) as u64);
    assert(bs.subrange(0, 8) =~= u64_be((8 + body.len()) as u64));
    assert(attestation_bytes(b.attestation).len() == 129);
    assert(bs.len() == 8 + body.len());
    assert(bs.subrange(8, 137) =~= attestation_bytes(b.attestation));
    assert(bs.subrange(137, bs.len() as int) =~= credential_bytes(b.credential));
    crate::purpose_key::lemma_attestation_parses_back(b.attestation);
    lemma_credential_parses_back(b.credential);
}

/// Encode credential data into the bytes that its signature covers.
pub fn encode_data(d: &CredentialData) -> (r: Vec<u8>)
    ensures
        r@ == data_bytes(d@),
{
    let mut out: Vec<u8> = Vec::new();
    push_all(&mut out, &d.subject.bytes);
    push_u64_be(&mut out, d.schema);
    push_u64_be(&mut out, d.expires_at);
    push_u64_be(&mut out, d.attributes.len() as u64);
    let ghost head = out@;
    let mut i: usize = 0;
    while i < d.attributes.len()
        invariant
            i <= d@.attributes.len(),
            d@.attributes.len() == d.attributes@.len(),
            out@ == head + attributes_bytes(d@.attributes.take(i as int)),
            forall|j: int| 0 <= j < d.attributes@.len() ==> (#[trigger] d.attributes@[j])@
                == d@.attributes[j],
        decreases d.attributes@.len() - i,
    {
        let a = &d.attributes[i];
        push_u64_be(&mut out, a.name.len() as u64);
        push_all(&mut out, &a.name);
        push_u64_be(&mut out, a.value.len() as u64);
        push_all(&mut out, &a.value);
        proof {
            let av = d@.attributes[i as int];
            lemma_attributes_bytes_concat(d@.attributes.take(i as int), seq![av]);
            assert(d@.attributes.take(i + 1) =~= d@.attributes.take(i as int) + seq![av]);
            assert(seq![av].drop_first() =~= Seq::<AttributeV>::empty());
            assert(attributes_bytes(Seq::<AttributeV>::empty()) =~= Seq::<u8>::empty());
            assert(attributes_bytes(seq![av]) =~= attribute_bytes(av));
            assert(out@ =~= head + attributes_bytes(d@.attributes.take(i + 1)));
        }
        i += 1;
    }
    proof {
        assert(d@.attributes.take(d@.attributes.len() as int) =~= d@.attributes);
        assert(out@ =~= data_bytes(d@));
    }
    out
}

/// Encode a bundle for transport. The only failure is a body whose total
/// length cannot be stated in the format's length field.
pub fn encode_bundle(b: &CredentialAndPurposeKey) -> (r: Result<Vec<u8>, IdentityError>)
    requires
        attestation_wf(b@.attestation),
    ensures
        r is Ok <==> bundle_bytes(b@).len() <= u64::MAX,
        r matches Ok(v) ==> v@ == bundle_bytes(b@),
        r matches Err(e) ==> e == IdentityError::CredentialEncodeError,
{
    let att = crate::purpose_key::encode_attestation(&b.purpose_key_attestation);
    let data = encode_data(&b.credential.data);
    let mut body: Vec<u8> = Vec::new();
    push_all(&mut body, &att);
    push_all(&mut body, &data);
    push_all(&mut body, &b.credential.signature);
    proof {
        assert(body@ =~= attestation_bytes(b@.attestation) + credential_bytes(b@.credential));
    }
    if (body.len() as u64) > u64::MAX - 8 {
        return Err(IdentityError::CredentialEncodeError);
    }
    let total: u64 = 8 + body.len() as u64;
    let mut out: Vec<u8> = Vec::new();
    push_u64_be(&mut out, total);
    push_all(&mut out, &body);
    proof {
        assert(out@ =~= bundle_bytes(b@));
    }
    Ok(out)
}

/// Decode the attributes region: exactly `n` length-prefixed entries.
fn decode_attributes(bytes: &Vec<u8>, n: u64) -> (r: Option<Vec<Attribute>>)
    ensures
        r is Some <==> parse_attributes(bytes@, n as int) is Some,
        r matches Some(v) ==> Some(v@.map(|i: int, a: Attribute| a@)) == parse_attributes(
            bytes@,
            n as int,
        ),
{
    let len = bytes.len();
    let mut out: Vec<Attribute> = Vec::new();
    let mut c: usize = 0;
    let mut i: u64 = 0;
    proof {
        assert(bytes@.subrange(0, len as int) =~= bytes@);
        assert(out@.map(|k: int, a: Attribute| a@) =~= Seq::<AttributeV>::empty());
        if parse_attributes(bytes@, n as int) is Some {
            let rest = parse_attributes(bytes@, n as int).unwrap();
            assert(out@.map(|k: int, a: Attribute| a@) + rest =~= rest);
        }
    }
    while i < n
        invariant
            0 <= i <= n,
            c <= len,
            len == bytes@.len(),
            out@.len() == i,
            parse_attributes(bytes@, n as int) == (match parse_attributes(
                bytes@.subrange(c as int, len as int),
                n as int - i as int,
            ) {
                None => None::<Seq<AttributeV>>,
                Some(rest) => Some(out@.map(|k: int, a: Attribute| a@) + rest),
            }),
        decreases n - i,
    {
        let ghost sub = bytes@.subrange(c as int, len as int);
        let rem = len - c;
        if rem < 16 {
            proof {
                if rem >= 8 {
                    let kl = be_val(sub.subrange(0, 8)) as int;
                    assert(sub.len() < 16 + kl);
                }
            }
            return None;
        }
        let kl64 = read_u64_be(bytes, c);
        proof {
            assert(sub.subrange(0, 8) =~= bytes@.subrange(c as int, c as int + 8));
        }
        if kl64 > (rem - 16) as u64 {
            proof {
                assert(sub.len() < 16 + be_val(sub.subrange(0, 8)) as int);
            }
            return None;
        }
        let kl = kl64 as usize;
        let vl64 = read_u64_be(bytes, c + 8 + kl);
        proof {
            assert(sub.subrange(8 + kl as int, 16 + kl as int) =~= bytes@.subrange(
                c as int + 8 + kl as int,
                c as int + 16 + kl as int,
            ));
        }
        if vl64 > (rem - 16 - kl) as u64 {
            proof {
                assert(sub.len() < 16 + kl as int + be_val(
                    sub.subrange(8 + kl as int, 16 + kl as int),
                ) as int);
            }
            return None;
        }
        let vl = vl64 as usize;
        let name = sub_bytes(bytes, c + 8, kl);
        let value = sub_bytes(bytes, c + 16 + kl, vl);
        let ghost pre_out = out@;
        out.push(Attribute { name, value });
        proof {
            let klid = kl as int;
            let vlid = vl as int;
            assert(sub.subrange(8, 8 + klid) =~= bytes@.subrange(
                c as int + 8,
                c as int + 8 + klid,
            ));
            assert(sub.subrange(16 + klid, 16 + klid + vlid) =~= bytes@.subrange(
                c as int + 16 + klid,
                c as int + 16 + klid + vlid,
            ));
            assert(sub.subrange(16 + klid + vlid, sub.len() as int) =~= bytes@.subrange(
                c as int + 16 + klid + vlid,
                len as int,
            ));
            let av = AttributeV {
                name: sub.subrange(8, 8 + klid),
                value: sub.subrange(16 + klid, 16 + klid + vlid),
            };
            assert(parse_attributes(sub, n as int - i as int) == (match parse_attributes(
                bytes@.subrange(c as int + 16 + klid + vlid, len as int),
                n as int - i as int - 1,
            ) {
                None => None::<Seq<AttributeV>>,
                Some(rest) => Some(seq![av] + rest),
            }));
            assert(out@.map(|k: int, a: Attribute| a@) =~= pre_out.map(
                |k: int, a: Attribute| a@,
            ) + seq![av]);
            assert forall|rest: Seq<AttributeV>| true implies pre_out.map(
                |k: int, a: Attribute| a@,
            ) + (seq![av] + rest) == out@.map(|k: int, a: Attribute| a@) + rest by {
                assert(pre_out.map(|k: int, a: Attribute| a@) + (seq![av] + rest) =~= out@.map(
                    |k: int, a: Attribute| a@,
                ) + rest);
            }
        }
        c = c + 16 + kl + vl;
        i = i + 1;
    }
    if c != len {
        proof {
            assert(parse_attributes(bytes@.subrange(c as int, len as int), 0) is None);
        }
        return None;
    }
    proof {
        assert(bytes@.subrange(c as int, len as int) =~= Seq::<u8>::empty());
        assert(parse_attributes(Seq::<u8>::empty(), 0) == Some(Seq::<AttributeV>::empty()));
        assert(out@.map(|k: int, a: Attribute| a@) + Seq::<AttributeV>::empty() =~= out@.map(
            |k: int, a: Attribute| a@,
        ));
    }
    Some(out)
}

/// Decode credential data.
fn decode_data(bytes: &Vec<u8>) -> (r: Option<CredentialData>)
    ensures
        r is Some <==> parse_data(bytes@) is Some,
        r matches Some(d) ==> Some(d@) == parse_data(bytes@),
{
    if bytes.len() < 56 {
        return None;
    }
    let subject_bytes = sub_bytes(bytes, 0, 32);
    let schema = read_u64_be(bytes, 32);
    let expires_at = read_u64_be(bytes, 40);
    let n = read_u64_be(bytes, 48);
    let region = sub_bytes(bytes, 56, bytes.len() - 56);
    proof {
        assert(region@ =~= bytes@.subrange(56, bytes@.len() as int));
    }
    match decode_attributes(&region, n) {
        None => None,
        Some(attributes) => {
            let d = CredentialData {
                subject: Identifier { bytes: subject_bytes },
                schema,
                attributes,
                expires_at,
            };
            proof {
                assert(d@.subject =~= bytes@.subrange(0, 32));
            }
            Some(d)
        },
    }
}

/// Decode a wire bundle. Succeeds exactly on well-formed encodings; a
/// malformed blob is a decode error, never a verification error.
pub fn decode_bundle(bytes: &Vec<u8>) -> (r: Result<CredentialAndPurposeKey, IdentityError>)
    ensures
        r is Ok <==> parse_bundle(bytes@) is Some,
        r matches Ok(b) ==> Some(b@) == parse_bundle(bytes@) && attestation_wf(b@.attestation)
            && b@.credential.signature.len() == 64 && b@.attestation.purpose
            == b.purpose_key_attestation.purpose,
        r matches Err(e) ==> e == IdentityError::CredentialDecodeError,
{
    let len = bytes.len();
    if len < 137 {
        return Err(IdentityError::CredentialDecodeError);
    }
    let total = read_u64_be(bytes, 0);
    if total != len as u64 {
        return Err(IdentityError::CredentialDecodeError);
    }
    let att_bytes = sub_bytes(bytes, 8, 129);
    proof {
        assert(att_bytes@ =~= bytes@.subrange(8, 137));
    }
    let attestation = match crate::purpose_key::decode_attestation(&att_bytes) {
        Ok(a) => a,
        Err(_) => {
            return Err(IdentityError::CredentialDecodeError);
        },
    };
    let ghost cred_region = bytes@.subrange(137, len as int);
    if len - 137 < 120 {
        proof {
            assert(cred_region.len() < 120);
        }
        return Err(IdentityError::CredentialDecodeError);
    }
    let data_region = sub_bytes(bytes, 137, len - 137 - 64);
    let signature = sub_bytes(bytes, len - 64, 64);
    proof {
        assert(data_region@ =~= cred_region.subrange(0, cred_region.len() - 64));
        assert(signature@ =~= cred_region.subrange(
            cred_region.len() - 64,
            cred_region.len() as int,
        ));
    }
    match decode_data(&data_region) {
        None => Err(IdentityError::CredentialDecodeError),
        Some(data) => Ok(
            CredentialAndPurposeKey {
                credential: Credential { data, signature },
                purpose_key_attestation: attestation,
            },
        ),
    }
}

/// A credential's signature is checked under the attested purpose key, over
/// the byte form of its data.
pub open spec fn credential_sig_valid(c: CredentialV, key: Seq<u8>) -> bool {
    ed25519_verify(key, data_bytes(c.data), c.signature)
}

/// The rotation chains of a list of identities.
pub open spec fn identities_views(s: Seq<Identity>) -> Seq<Seq<EventV>> {
    s.map(|i: int, a: Identity| a@)
}

/// When a credential bundle is acceptable: its attestation must be a valid
/// purpose-key attestation of one of the trusted authorities (which makes
/// that authority the issuer), the attested purpose must be credential
/// signing, the credential's signature must verify under the attested key,
/// the subject must match the caller's expectation when one is given, and
/// the credential must not have expired.
pub open spec fn credential_acceptable(
    b: BundleV,
    authorities: Seq<Seq<EventV>>,
    expected_subject: Option<Seq<u8>>,
    now: u64,
) -> bool {
    &&& exists|j: int|
        0 <= j < authorities.len() && attestation_valid(b.attestation, #[trigger] authorities[j])
    &&& b.attestation.purpose == Purpose::CredentialSigning
    &&& credential_sig_valid(b.credential, b.attestation.public_key)
    &&& (expected_subject matches Some(s) ==> b.credential.data.subject == s)
    &&& now < b.credential.data.expires_at
}

/// A copy of an attribute list.
fn copy_attributes(attrs: &Vec<Attribute>) -> (r: Vec<Attribute>)
    ensures
        r@.map(|i: int, a: Attribute| a@) == attrs@.map(|i: int, a: Attribute| a@),
{
    let mut out: Vec<Attribute> = Vec::new();
    let mut i: usize = 0;
    while i < attrs.len()
        invariant
            i <= attrs@.len(),
            out@.len() == i,
            forall|j: int| 0 <= j < i ==> (#[trigger] out@[j])@ == attrs@[j]@,
        decreases attrs@.len() - i,
    {
        out.push(Attribute { name: copy_bytes(&attrs[i].name), value: copy_bytes(&attrs[i].value) });
        i += 1;
    }
    proof {
        assert(out@.map(|i: int, a: Attribute| a@) =~= attrs@.map(|i: int, a: Attribute| a@));
    }
    out
}

/// Issue a credential: attest a fresh credential-signing purpose key under
/// the issuer's identity, set the expiry to `now + ttl`, and sign the data
/// with the purpose key. Fails when the vault does not hold the issuer's
/// current signing secret, or when the expiry cannot be represented.
pub fn issue_credential(
    issuer: &Identity,
    vault: &mut SoftwareVault,
    subject: &Identifier,
    attributes: Vec<Attribute>,
    schema: u64,
    now: u64,
    ttl: u64,
) -> (r: Result<CredentialAndPurposeKey, IdentityError>)
    requires
        issuer.wf(),
        old(vault).wf(),
        subject.wf(),
    ensures
        final(vault).wf(),
        crate::vault::vault_preserves(*old(vault), *final(vault)),
        r is Ok <==> (now + ttl <= u64::MAX && old(vault).has_key(
            issuer@[issuer@.len() - 1].public_key,
        )),
        r matches Ok(b) ==> ({
            &&& b@.credential.data.subject == subject@
            &&& b@.credential.data.schema == schema
            &&& b@.credential.data.attributes == attributes@.map(|i: int, a: Attribute| a@)
            &&& b@.credential.data.expires_at == now + ttl
            &&& b@.attestation.subject == issuer.spec_identifier()
            &&& b@.attestation.purpose == Purpose::CredentialSigning
            &&& attestation_wf(b@.attestation)
            &&& attestation_valid(b@.attestation, issuer@)
            &&& credential_sig_valid(b@.credential, b@.attestation.public_key)
            &&& b@.credential.signature.len() == 64
        }),
        r matches Err(e) ==> e == IdentityError::CredentialIssuingError,
{
    let expires_at = match now.checked_add(ttl) {
        Some(t) => t,
        None => {
            return Err(IdentityError::CredentialIssuingError);
        },
    };
    let current = issuer.current_public_key();
    if !vault.contains_key(&current) {
        return Err(IdentityError::CredentialIssuingError);
    }
    let purpose_public = vault.generate_key();
    let attestation = match crate::purpose_key::attest_purpose_key(
        issuer,
        vault,
        Purpose::CredentialSigning,
        &purpose_public,
    ) {
        Ok(a) => a,
        Err(_) => {
            return Err(IdentityError::CredentialIssuingError);
        },
    };
    let data = CredentialData {
        subject: Identifier { bytes: copy_bytes(&subject.bytes) },
        schema,
        attributes,
        expires_at,
    };
    let msg = encode_data(&data);
    let signature = match vault.sign(&purpose_public, &msg) {
        Some(s) => s,
        None => {
            proof {
                assert(false);
            }
            Vec::new()
        },
    };
    Ok(
        CredentialAndPurposeKey {
            credential: Credential { data, signature },
            purpose_key_attestation: attestation,
        },
    )
}

/// Verify a credential bundle against a set of trusted authorities: find
/// the authority whose attestation this is, re-check the attestation and the
/// credential signature, then check subject and expiry. All-or-nothing: on
/// any failure nothing is returned but the failure kind.
pub fn verify_credential(
    expected_subject: Option<&Identifier>,
    authorities: &Vec<Identity>,
    bundle: &CredentialAndPurposeKey,
    now: u64,
) -> (r: Result<(u64, Vec<Attribute>), IdentityError>)
    requires
        forall|i: int| 0 <= i < authorities@.len() ==> (#[trigger] authorities@[i]).wf(),
    ensures
        r is Ok <==> credential_acceptable(
            bundle@,
            identities_views(authorities@),
            match expected_subject {
                Some(e) => Some(e@),
                None => None,
            },
            now,
        ),
        r matches Ok(p) ==> p.0 == bundle@.credential.data.expires_at && p.1@.map(
            |i: int, a: Attribute| a@,
        ) == bundle@.credential.data.attributes,
        r matches Err(e) ==> e == IdentityError::CredentialVerificationFailed,
{
    let ghost views = identities_views(authorities@);
    let mut found: Option<usize> = None;
    let mut j: usize = 0;
    while j < authorities.len() && found.is_none()
        invariant
            j <= authorities@.len(),
            views == identities_views(authorities@),
            forall|i: int| 0 <= i < authorities@.len() ==> (#[trigger] authorities@[i]).wf(),
            found is None ==> forall|k: int|
                0 <= k < j ==> !attestation_valid(bundle@.attestation, #[trigger] views[k]),
            found matches Some(f) ==> f < authorities@.len() && attestation_valid(
                bundle@.attestation,
                views[f as int],
            ),
        decreases authorities@.len() - j,
    {
        match crate::purpose_key::verify_purpose_key_attestation(
            None,
            &authorities[j],
            &bundle.purpose_key_attestation,
        ) {
            Ok(_) => {
                found = Some(j);
            },
            Err(_) => {},
        }
        j += 1;
    }
    if found.is_none() {
        proof {
            assert(forall|k: int|
                0 <= k < views.len() ==> !attestation_valid(bundle@.attestation, #[trigger] views[k]));
        }
        return Err(IdentityError::CredentialVerificationFailed);
    }
    if !matches!(bundle.purpose_key_attestation.purpose, Purpose::CredentialSigning) {
        return Err(IdentityError::CredentialVerificationFailed);
    }
    let msg = encode_data(&bundle.credential.data);
    if !crate::crypto::verify_signature(
        &bundle.purpose_key_attestation.public_key,
        &msg,
        &bundle.credential.signature,
    ) {
        return Err(IdentityError::CredentialVerificationFailed);
    }
    match expected_subject {
        Some(e) => {
            if !e.equals(&bundle.credential.data.subject) {
                return Err(IdentityError::CredentialVerificationFailed);
            }
        },
        None => {},
    }
    if now >= bundle.credential.data.expires_at {
        return Err(IdentityError::CredentialVerificationFailed);
    }
    Ok((bundle.credential.data.expires_at, copy_attributes(&bundle.credential.data.attributes)))
}

/// Issuance and verification round trip: a credential just issued is
/// acceptable when verified with the issuer among the trusted authorities,
/// the expected subject equal to the credential's subject, and a clock that
/// has not reached the expiry.
pub proof fn lemma_issue_verify_round_trip(
    b: BundleV,
    issuer: Seq<EventV>,
    authorities: Seq<Seq<EventV>>,
    now: u64,
)
    requires
        attestation_valid(b.attestation, issuer),
        b.attestation.purpose == Purpose::CredentialSigning,
        credential_sig_valid(b.credential, b.attestation.public_key),
        exists|j: int| 0 <= j < authorities.len() && authorities[j] == issuer,
        now < b.credential.data.expires_at,
    ensures
        credential_acceptable(b, authorities, Some(b.credential.data.subject), now),
        credential_acceptable(b, authorities, None, now),
{
    let j = choose|j: int| 0 <= j < authorities.len() && authorities[j] == issuer;
    assert(attestation_valid(b.attestation, authorities[j]));
}

/// Expiry enforcement: once the clock reaches `expires_at`, the credential
/// is not acceptable, whatever else holds of it.
pub proof fn lemma_expired_credential_rejected(
    b: BundleV,
    authorities: Seq<Seq<EventV>>,
    expected_subject: Option<Seq<u8>>,
    now: u64,
)
    requires
        now >= b.credential.data.expires_at,
    ensures
        !credential_acceptable(b, authorities, expected_subject, now),
{
}

/// Trust-set enforcement: when no trusted authority's handle is the
/// attestation's subject, the credential is not acceptable, even when every
/// signature is valid.
pub proof fn lemma_untrusted_issuer_rejected(
    b: BundleV,
    authorities: Seq<Seq<EventV>>,
    expected_subject: Option<Seq<u8>>,
    now: u64,
)
    requires
        forall|j: int|
            0 <= j < authorities.len() ==> (#[trigger] authorities[j])[0].public_key
                != b.attestation.subject,
    ensures
        !credential_acceptable(b, authorities, expected_subject, now),
{
    if credential_acceptable(b, authorities, expected_subject, now) {
        let j = choose|j: int|
            0 <= j < authorities.len() && attestation_valid(b.attestation, #[trigger] authorities[j]);
        assert(authorities[j][0].public_key == b.attestation.subject);
    }
}

/// Any strict prefix of an encoded bundle fails to decode: the bundle
/// announces its total length, and a truncated blob no longer matches it.
pub proof fn lemma_truncated_bundle_fails(b: BundleV, k: int)
    requires
        bundle_wf(b),
        bundle_bytes(b).len() <= u64::MAX,
        0 <= k < bundle_bytes(b).len(),
    ensures
        parse_bundle(bundle_bytes(b).take(k)) is None,
{
    let bs = bundle_bytes(b);
    let cut = bs.take(k);
    if k >= 137 {
        let body = attestation_bytes(b.attestation) + credential_bytes(b.credential);
        lemma_u64_be_round_trip((8 + body.len()) as u64);
        assert(cut.subrange(0, 8) =~= bs.subrange(0, 8));
        assert(be_val(cut.subrange(0, 8)) == bs.len());
        assert(cut.len() < bs.len());
    }
}

} // verus!
