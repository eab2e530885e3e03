//! A block header with its canonical encoding kept at hand, so that the
//! block hash need not encode the header again.

use vstd::prelude::*;
use alloy_consensus::Header;
use crate::hash::{keccak256, keccak256_of};
use crate::hex::{bytes_of, text_of};

verus! {

#[verifier::external_type_specification]
#[verifier::external_body]
pub struct ExHeader(alloy_consensus::Header);

#[verifier::external_type_specification]
#[verifier::external_body]
pub struct ExRlpError(alloy_rlp::Error);

/// A header together with the encoding that is kept at hand for it.
pub struct HeaderModel {
    /// The header.
    pub header: Header,
    /// The encoding at hand, if any.
    pub cache: Option<Seq<u8>>,
}

/// Bytes as they travel: as text in a readable format, as raw bytes in a
/// binary one, or as a list of byte elements.
#[derive(Debug)]
pub enum Wire {
    /// Hexadecimal text.
    Text(String),
    /// Raw bytes.
    Bytes(Vec<u8>),
    /// A list of single bytes.
    Elements(Vec<u8>),
}

/// The mathematical content of bytes as they travel.
pub enum WireModel {
    Text(Seq<char>),
    Bytes(Seq<u8>),
    Elements(Seq<u8>),
}

/// Why bytes that arrived are no header.
#[derive(Debug)]
pub enum DecodeError {
    /// The text is no hexadecimal byte string.
    Hex(alloy_primitives::hex::FromHexError),
    /// The bytes are no canonical encoding of a header.
    Rlp(alloy_rlp::Error),
}

/// A header sealed with a hash that was supplied from outside.
#[derive(Debug)]
pub struct Sealed {
    /// The header.
    pub inner: RlpHeader,
    /// The hash it was sealed with.
    pub seal: [u8; 32],
}

/// `Header` derives `Clone`: the copy is the same header.
pub assume_specification[ <alloy_consensus::Header as Clone>::clone ](header: &Header) -> (copy:
    Header)
    ensures
        copy == *header,
;

/// The canonical encoding of a header.
pub uninterp spec fn header_encoding(header: Header) -> Seq<u8>;

/// The header that a byte string decodes to, if it decodes.
pub uninterp spec fn header_decoding(bytes: Seq<u8>) -> Option<Header>;

/// The block number of a header.
pub uninterp spec fn header_number(header: Header) -> u64;

/// The state root of a header.
pub uninterp spec fn header_state_root(header: Header) -> Seq<u8>;

/// Calls `alloy_rlp::encode` on the header. The encoding is a function of
/// the header alone; the contract gives it its name.
#[verifier::external_body]
fn encode_header(header: &Header) -> (encoding: Vec<u8>)
    ensures
        encoding@ == header_encoding(*header),
{
    alloy_rlp::encode(header)
}

/// Calls `alloy_rlp::decode_exact` for a header. Whether the bytes decode,
/// and to which header, depends on the bytes alone; the contract gives the
/// header its name. Which error is returned is not stated.
#[verifier::external_body]
fn decode_header(bytes: &[u8]) -> (header: Result<Header, alloy_rlp::Error>)
    ensures
        match header {
            Ok(found) => header_decoding(bytes@) == Some(found),
            Err(_) => header_decoding(bytes@) is None,
        },
{
    alloy_rlp::decode_exact(bytes)
}

/// Reads the field `number` of the header.
#[verifier::external_body]
fn number_of(header: &Header) -> (number: u64)
    ensures
        number == header_number(*header),
{
    header.number
}

/// Reads the field `state_root` of the header.
#[verifier::external_body]
fn state_root_of(header: &Header) -> (root: [u8; 32])
    ensures
        root@ == header_state_root(*header),
{
    header.state_root.0
}

/// A header, and its encoding if it is at hand.
#[derive(Clone, Debug)]
pub struct RlpHeader {
    inner: Header,
    rlp: Option<Vec<u8>>,
}

impl View for RlpHeader {
    type V = HeaderModel;

    closed spec fn view(&self) -> HeaderModel {
        HeaderModel {
            header: self.inner,
            cache: match self.rlp {
                Some(bytes) => Some(bytes@),
                None => None,
            },
        }
    }
}

impl View for Wire {
    type V = WireModel;

    open spec fn view(&self) -> WireModel {
        match self {
            Wire::Text(text) => WireModel::Text(text@),
            Wire::Bytes(bytes) => WireModel::Bytes(bytes@),
            Wire::Elements(bytes) => WireModel::Elements(bytes@),
        }
    }
}

impl WireModel {
    /// The byte string that arrived, whatever the form: text stands for the
    /// bytes it spells, if it spells any.
    pub open spec fn bytes(self) -> Option<Seq<u8>> {
        match self {
            WireModel::Text(text) => bytes_of(text),
            WireModel::Bytes(bytes) => Some(bytes),
            WireModel::Elements(bytes) => Some(bytes),
        }
    }
}

impl HeaderModel {
    /// The encoding at hand, if there is one, is that of the header.
    pub open spec fn is_canonical(self) -> bool {
        self.cache matches Some(bytes) ==> bytes == header_encoding(self.header)
    }

    /// The bytes that the block hash is taken of: the encoding at hand, or
    /// else the encoding of the header.
    pub open spec fn hashed_bytes(self) -> Seq<u8> {
        match self.cache {
            Some(bytes) => bytes,
            None => header_encoding(self.header),
        }
    }

    /// The block hash.
    pub open spec fn hash(self) -> Seq<u8> {
        keccak256_of(self.hashed_bytes())
    }

    /// The canonical encoding.
    pub open spec fn encode(self) -> Seq<u8> {
        header_encoding(self.header)
    }

    /// What a byte string decodes to: the header it encodes, with the byte
    /// string itself kept at hand.
    pub open spec fn decode(bytes: Seq<u8>) -> Option<HeaderModel> {
        match header_decoding(bytes) {
            Some(header) => Some(HeaderModel { header, cache: Some(bytes) }),
            None => None,
        }
    }

    /// The form in which a header travels: the text of its encoding in a
    /// readable format, the encoding itself in a binary one.
    pub open spec fn serialize(self, human_readable: bool) -> WireModel {
        if human_readable {
            WireModel::Text(text_of(self.encode()))
        } else {
            WireModel::Bytes(self.encode())
        }
    }

    /// What arrives as a header: the form is brought to bytes, and the
    /// bytes are decoded.
    pub open spec fn deserialize(wire: WireModel) -> Option<HeaderModel> {
        match wire.bytes() {
            Some(bytes) => Self::decode(bytes),
            None => None,
        }
    }
}

impl RlpHeader {
    /// A header without an encoding at hand.
    #[must_use]
    pub fn new(inner: Header) -> (wrapped: Self)
        ensures
            wrapped@ == (HeaderModel { header: inner, cache: None }),
            wrapped@.is_canonical(),
    {
        RlpHeader { inner, rlp: None }
    }

    /// The header.
    pub fn inner(&self) -> (header: &Header)
        ensures
            *header == self@.header,
    {
        &self.inner
    }

    /// The header, to be changed. The encoding at hand is dropped: it may
    /// not be that of the header after the change.
    pub fn inner_mut(&mut self) -> (header: &mut Header)
        ensures
            *header == old(self)@.header,
            final(self)@ == (HeaderModel { header: *final(header), cache: None }),
    {
        self.rlp = None;
        &mut self.inner
    }

    /// Gives up the wrapper for the header.
    pub fn into_inner(self) -> (header: Header)
        ensures
            header == self@.header,
    {
        self.inner
    }

    /// The block number.
    pub fn number(&self) -> (number: u64)
        ensures
            number == header_number(self@.header),
    {
        number_of(&self.inner)
    }

    /// The root of the state trie after the block.
    pub fn state_root(&self) -> (root: [u8; 32])
        ensures
            root@ == header_state_root(self@.header),
    {
        state_root_of(&self.inner)
    }

    /// The block hash: the hash of the encoding at hand, if there is one,
    /// and of a fresh encoding of the header otherwise.
    pub fn hash_slow(&self) -> (hash: [u8; 32])
        ensures
            hash@ == self@.hash(),
    {
        match &self.rlp {
            Some(rlp) => keccak256(rlp.as_slice()),
            None => {
                let encoding = encode_header(&self.inner);
                keccak256(encoding.as_slice())
            },
        }
    }

    /// Seals the header with a hash supplied from outside. The encoding at
    /// hand is dropped: the seal may not be the hash of it.
    pub fn seal_unchecked(self, seal: [u8; 32]) -> (sealed: Sealed)
        ensures
            sealed.inner@ == (HeaderModel { header: self@.header, cache: None }),
            sealed.seal == seal,
    {
        let mut inner = self;
        inner.rlp = None;
        Sealed { inner, seal }
    }

    /// The canonical encoding of the header, made afresh.
    pub fn encode(&self) -> (encoding: Vec<u8>)
        ensures
            encoding@ == self@.encode(),
    {
        encode_header(&self.inner)
    }

    /// Decodes a header from its encoding, and keeps the encoding at hand.
    /// Bytes that are no encoding of a header, or that go on after it, are
    /// refused.
    pub fn decode(rlp: Vec<u8>) -> (decoded: Result<Self, DecodeError>)
        ensures
            match decoded {
                Ok(header) => HeaderModel::decode(rlp@) == Some(header@),
                Err(error) => HeaderModel::decode(rlp@) is None && error is Rlp,
            },
    {
        match decode_header(rlp.as_slice()) {
            Ok(inner) => Ok(RlpHeader { inner, rlp: Some(rlp) }),
            Err(error) => Err(DecodeError::Rlp(error)),
        }
    }

    /// The header in the form in which it travels: the text of its encoding
    /// where the format is readable, the encoding itself where it is
    /// binary. The header is encoded afresh.
    pub fn serialize(&self, human_readable: bool) -> (wire: Wire)
        ensures
            wire@ == self@.serialize(human_readable),
    {
        let encoding = encode_header(&self.inner);
        if human_readable {
            Wire::Text(crate::hex::encode_prefixed(encoding.as_slice()))
        } else {
            Wire::Bytes(encoding)
        }
    }

    /// Brings what arrived to one byte buffer, whatever its form.
    pub fn normalize(wire: Wire) -> (bytes: Result<Vec<u8>, DecodeError>)
        ensures
            match bytes {
                Ok(found) => wire@.bytes() == Some(found@),
                Err(error) => wire@.bytes() is None && error is Hex,
            },
    {
        match wire {
            Wire::Text(text) => match crate::hex::decode(text.as_str()) {
                Ok(found) => Ok(found),
                Err(error) => Err(DecodeError::Hex(error)),
            },
            Wire::Bytes(bytes) => Ok(bytes),
            Wire::Elements(bytes) => Ok(bytes),
        }
    }

    /// Reads a header from the form in which it arrived: the form is
    /// brought to bytes, the bytes are decoded and kept at hand.
    pub fn deserialize(wire: Wire) -> (decoded: Result<Self, DecodeError>)
        ensures
            match decoded {
                Ok(header) => HeaderModel::deserialize(wire@) == Some(header@),
                Err(error) => {
                    &&& HeaderModel::deserialize(wire@) is None
                    &&& (error is Hex <==> wire@.bytes() is None)
                },
            },
    {
        match Self::normalize(wire) {
            Ok(rlp) => Self::decode(rlp),
            Err(error) => Err(error),
        }
    }
}

/// The hash survives the round trip: a canonical header, encoded and
/// decoded again, has the hash it had before. The decoded header takes its
/// hash from the encoding at hand, the first may take it from a fresh
/// encoding; both hash the same bytes.
pub proof fn lemma_hash_survives_round_trip(first: HeaderModel)
    requires
        first.is_canonical(),
    ensures
        first.hash() == keccak256_of(first.encode()),
        HeaderModel::decode(first.encode()) matches Some(decoded) ==> decoded.hash()
            == first.hash(),
        (HeaderModel { header: first.header, cache: Some(first.encode()) }).hash() == (
        HeaderModel { header: first.header, cache: None }).hash(),
{
}

/// Both forms of travel give back the bytes that were sent: what arrives,
/// as text or as raw bytes, decodes exactly as the encoding itself does.
/// So where decoding the encoding gives back the header, every form of
/// travel gives it back too, with that encoding at hand.
pub proof fn lemma_transport_round_trip(first: HeaderModel, human_readable: bool)
    ensures
        first.serialize(human_readable).bytes() == Some(first.encode()),
        HeaderModel::deserialize(first.serialize(human_readable)) == HeaderModel::decode(
            first.encode(),
        ),
        header_decoding(header_encoding(first.header)) == Some(first.header)
            ==> HeaderModel::deserialize(first.serialize(human_readable)) == Some(
            HeaderModel { header: first.header, cache: Some(first.encode()) },
        ),
{
    crate::hex::lemma_text_round_trip(first.encode());
}

} // verus!
