//! The structured-encoding codecs that an envelope's payload can be written
//! with, and the calls into them.
//!
//! A byte payload is handed to a codec as a list of integers, one for each
//! byte, and read back from such a list.

use crate::error::Error;
use vstd::prelude::*;

verus! {

/// A structured-encoding scheme, known by its multicodec tag.
#[derive(Clone, Copy, Debug, PartialEq, Eq, Structural)]
pub enum Codec {
    Raw,
    DagCbor,
    DagJson,
    /// The legacy codec: identifiers built for it carry the older version.
    DagPb,
}

/// Tag of the DAG-CBOR codec.
pub const DAG_CBOR: u64 = 0x71;

/// Tag of the DAG-JSON codec.
pub const DAG_JSON: u64 = 0x0129;

/// What the codec with this tag writes for a list holding the bytes of `data`
/// as integers.
pub uninterp spec fn codec_encoded(tag: u64, data: Seq<u8>) -> Seq<u8>;

/// The list of integers that the codec with this tag reads from `bytes`, or
/// `None` where it refuses or reads anything else.
pub uninterp spec fn codec_decoded(tag: u64, bytes: Seq<u8>) -> Option<Seq<i128>>;

/// The bytes of `data`, each as an integer.
pub open spec fn widened(data: Seq<u8>) -> Seq<i128> {
    data.map_values(|b: u8| b as i128)
}

/// Whether every item is the value of a byte.
pub open spec fn all_bytes(items: Seq<i128>) -> bool {
    forall|i: int| 0 <= i < items.len() ==> 0 <= #[trigger] items[i] <= 255
}

/// The items, each as a byte.
pub open spec fn narrowed(items: Seq<i128>) -> Seq<u8> {
    items.map_values(|n: i128| n as u8)
}

/// Whether the codec with this tag writes a list of integers at all: the
/// two codecs with a value model do, the raw and the legacy codec do not.
pub open spec fn holds_lists(tag: u64) -> bool {
    tag == DAG_CBOR || tag == DAG_JSON
}

/// How many bytes of argument follow a CBOR head with this additional
/// information (0 to 27).
pub open spec fn argument_len(info: int) -> int {
    if info < 24 {
        0
    } else if info == 24 {
        1
    } else if info == 25 {
        2
    } else if info == 26 {
        4
    } else {
        8
    }
}

/// The big-endian number that the `len` bytes from `at` on hold.
pub open spec fn big_endian(bytes: Seq<u8>, at: int, len: int) -> int
    decreases len,
{
    if len <= 0 {
        0
    } else {
        big_endian(bytes, at, len - 1) * 256 + bytes[at + len - 1]
    }
}

/// The argument of the CBOR head at `at` with this additional information.
pub open spec fn argument(bytes: Seq<u8>, at: int, info: int) -> int {
    if info < 24 {
        info
    } else {
        big_endian(bytes, at + 1, argument_len(info))
    }
}

/// Whether a byte starts a CBOR integer, unsigned or negative.
pub open spec fn is_integer_head(first: u8) -> bool {
    first <= 0x1b || 0x20 <= first <= 0x3b
}

/// How many bytes the CBOR integer that starts with this byte takes.
pub open spec fn integer_len(first: u8) -> int {
    1 + argument_len(
        if first <= 0x1b {
            first as int
        } else {
            first - 0x20
        },
    )
}

/// Whether `count` whole CBOR integers stand one after another from `at` on.
pub open spec fn integers_at(bytes: Seq<u8>, at: int, count: int) -> bool
    decreases count,
{
    if count <= 0 {
        true
    } else {
        &&& 0 <= at < bytes.len()
        &&& is_integer_head(bytes[at])
        &&& at + integer_len(bytes[at]) <= bytes.len()
        &&& integers_at(bytes, at + integer_len(bytes[at]), count - 1)
    }
}

/// Whether the bytes begin with a CBOR array of integers: an array head that
/// announces no more items than bytes follow it, and then that many whole
/// integers.
pub open spec fn cbor_integer_list(bytes: Seq<u8>) -> bool {
    &&& bytes.len() > 0
    &&& 0x80 <= bytes[0] <= 0x9b
    &&& 1 + argument_len(bytes[0] - 0x80) <= bytes.len()
    &&& argument(bytes, 0, bytes[0] - 0x80) <= bytes.len() - 1 - argument_len(bytes[0] - 0x80)
    &&& integers_at(
        bytes,
        1 + argument_len(bytes[0] - 0x80),
        argument(bytes, 0, bytes[0] - 0x80),
    )
}

/// Whether the library hands the bytes to the codec with this tag for
/// reading: DAG-JSON text always, DAG-CBOR where the bytes begin with an
/// array of integers, nothing else.
pub open spec fn decodable(tag: u64, bytes: Seq<u8>) -> bool {
    if tag == DAG_CBOR {
        cbor_integer_list(bytes)
    } else {
        tag == DAG_JSON
    }
}

/// Calls `IpldCodec::try_from` on the tag, then `Codec::encode` of libipld on
/// `Ipld::List` of one `Ipld::Integer` for each byte; `None` stands for an
/// error of either.
/// Trusted: DAG-CBOR and DAG-JSON write every such list and no other tag
/// writes any; the result is a function of tag and bytes and is not empty;
/// what DAG-CBOR writes is an array head with the list's length and then one
/// integer for each byte; and what was written, the same codec's `decode`
/// reads back as the same list.
#[verifier::external_body]
fn ipld_encode(tag: u64, data: &[u8]) -> (r: Option<Vec<u8>>)
    ensures
        r is Some <==> holds_lists(tag),
        match r {
            Some(bytes) => bytes@ == codec_encoded(tag, data@) && bytes@.len() > 0 && decodable(
                tag,
                bytes@,
            ) && codec_decoded(tag, bytes@) == Some(widened(data@)),
            None => true,
        },
{
    let codec = libipld::IpldCodec::try_from(tag).ok()?;
    let items = data.iter().map(|b| libipld::Ipld::Integer(i128::from(*b))).collect();
    libipld::codec::Codec::encode(&codec, &libipld::Ipld::List(items)).ok()
}

/// Calls `IpldCodec::try_from` on the tag, then `Codec::decode` of libipld to
/// an `Ipld`, and hands out the integers of an `Ipld::List` of
/// `Ipld::Integer`; `None` stands for an error of either, and for any other
/// value.
/// Trusted: the result is a function of tag and bytes. What is asked of the
/// bytes keeps the DAG-CBOR reader from reserving room for more items than
/// there are bytes, and from descending into nested values.
#[verifier::external_body]
fn ipld_decode(tag: u64, bytes: &[u8]) -> (r: Option<Vec<i128>>)
    requires
        decodable(tag, bytes@),
    ensures
        match r {
            Some(items) => codec_decoded(tag, bytes@) == Some(items@),
            None => codec_decoded(tag, bytes@) is None,
        },
{
    let codec = libipld::IpldCodec::try_from(tag).ok()?;
    match libipld::codec::Codec::decode::<libipld::Ipld>(&codec, bytes).ok()? {
        libipld::Ipld::List(items) => items.into_iter().map(
            |item| match item {
                libipld::Ipld::Integer(n) => Some(n),
                _ => None,
            },
        ).collect(),
        _ => None,
    }
}

/// The argument of the CBOR head at `at`, where the head and its argument
/// lie within the bytes.
fn read_argument(bytes: &[u8], at: usize, info: u8) -> (value: u64)
    requires
        info <= 27,
        at + 1 + argument_len(info as int) <= bytes@.len(),
    ensures
        value == argument(bytes@, at as int, info as int),
{
    reveal_with_fuel(big_endian, 9);
    let total: usize = bytes.len();
    assert(at + 1 + argument_len(info as int) <= total);
    if info < 24 {
        info as u64
    } else if info == 24 {
        bytes[at + 1] as u64
    } else if info == 25 {
        (bytes[at + 1] as u64) * 256 + bytes[at + 2] as u64
    } else if info == 26 {
        (((bytes[at + 1] as u64) * 256 + bytes[at + 2] as u64) * 256 + bytes[at + 3] as u64) * 256
            + bytes[at + 4] as u64
    } else {
        let high: u64 = (((bytes[at + 1] as u64) * 256 + bytes[at + 2] as u64) * 256 + bytes[at
            + 3] as u64) * 256 + bytes[at + 4] as u64;
        let low: u64 = (((bytes[at + 5] as u64) * 256 + bytes[at + 6] as u64) * 256 + bytes[at
            + 7] as u64) * 256 + bytes[at + 8] as u64;
        high * 0x1_0000_0000 + low
    }
}

/// How many bytes of argument follow a CBOR head with this additional
/// information.
fn argument_size(info: u8) -> (len: usize)
    requires
        info <= 27,
    ensures
        len == argument_len(info as int),
{
    if info < 24 {
        0
    } else if info == 24 {
        1
    } else if info == 25 {
        2
    } else if info == 26 {
        4
    } else {
        8
    }
}

/// Whether the bytes begin with a CBOR array of integers.
pub fn is_integer_list(bytes: &[u8]) -> (b: bool)
    ensures
        b == cbor_integer_list(bytes@),
{
    if bytes.len() == 0 {
        return false;
    }
    let first = bytes[0];
    if first < 0x80 || first > 0x9b {
        return false;
    }
    let info: u8 = first - 0x80;
    let head: usize = 1 + argument_size(info);
    if head > bytes.len() {
        return false;
    }
    let count = read_argument(bytes, 0, info);
    if count > (bytes.len() - head) as u64 {
        return false;
    }
    let mut at: usize = head;
    let mut left: u64 = count;
    while left > 0
        invariant
            at <= bytes@.len(),
            left <= bytes@.len() - at,
            cbor_integer_list(bytes@) == integers_at(bytes@, at as int, left as int),
        decreases left,
    {
        let item = bytes[at];
        if !(item <= 0x1b || (0x20 <= item && item <= 0x3b)) {
            return false;
        }
        let size: usize = 1 + argument_size(
            if item <= 0x1b {
                item
            } else {
                item - 0x20
            },
        );
        if size > bytes.len() - at {
            return false;
        }
        at = at + size;
        left = left - 1;
        if left > (bytes.len() - at) as u64 {
            proof {
                if integers_at(bytes@, at as int, left as int) {
                    lemma_integers_take_bytes(bytes@, at as int, left as int);
                }
            }
            return false;
        }
    }
    true
}

/// Integers that stand one after another take at least a byte each.
pub proof fn lemma_integers_take_bytes(bytes: Seq<u8>, at: int, count: int)
    requires
        0 <= at <= bytes.len(),
        integers_at(bytes, at, count),
    ensures
        count <= bytes.len() - at,
    decreases count,
{
    if count > 0 {
        lemma_integers_take_bytes(bytes, at + integer_len(bytes[at]), count - 1);
    }
}

impl Codec {
    /// The multicodec tag of each codec.
    pub open spec fn tag_spec(self) -> u64 {
        match self {
            Codec::Raw => 0x55,
            Codec::DagCbor => 0x71,
            Codec::DagJson => 0x0129,
            Codec::DagPb => 0x70,
        }
    }

    /// The codec that a tag names, if any.
    pub open spec fn from_tag_spec(tag: u64) -> Option<Codec> {
        if tag == 0x55 {
            Some(Codec::Raw)
        } else if tag == 0x71 {
            Some(Codec::DagCbor)
        } else if tag == 0x0129 {
            Some(Codec::DagJson)
        } else if tag == 0x70 {
            Some(Codec::DagPb)
        } else {
            None
        }
    }

    /// What this codec writes for `data`; `None` for the codecs that write
    /// no list.
    pub open spec fn encoded_spec(self, data: Seq<u8>) -> Option<Seq<u8>> {
        if holds_lists(self.tag_spec()) {
            Some(codec_encoded(self.tag_spec(), data))
        } else {
            None
        }
    }

    /// The byte payload that this codec reads from `bytes`: `None` where the
    /// bytes are not handed to it, where it refuses them, and where it reads
    /// anything but a list of byte values.
    pub open spec fn decoded_spec(self, bytes: Seq<u8>) -> Option<Seq<u8>> {
        if !decodable(self.tag_spec(), bytes) {
            None
        } else {
            match codec_decoded(self.tag_spec(), bytes) {
                Some(items) => if all_bytes(items) {
                    Some(narrowed(items))
                } else {
                    None
                },
                None => None,
            }
        }
    }

    /// Whether this codec writes byte payloads: DAG-CBOR and DAG-JSON do.
    pub fn writes_lists(self) -> (b: bool)
        ensures
            b == holds_lists(self.tag_spec()),
    {
        match self {
            Codec::DagCbor => true,
            Codec::DagJson => true,
            _ => false,
        }
    }

    /// The codec's multicodec tag.
    pub fn tag(self) -> (t: u64)
        ensures
            t == self.tag_spec(),
    {
        match self {
            Codec::Raw => 0x55,
            Codec::DagCbor => 0x71,
            Codec::DagJson => 0x0129,
            Codec::DagPb => 0x70,
        }
    }

    /// The codec that `tag` names; `IpldCodecError` where it names none.
    pub fn from_tag(tag: u64) -> (r: Result<Codec, Error>)
        ensures
            match r {
                Ok(codec) => Codec::from_tag_spec(tag) == Some(codec),
                Err(e) => e == Error::IpldCodecError && Codec::from_tag_spec(tag) is None,
            },
    {
        if tag == 0x55 {
            Ok(Codec::Raw)
        } else if tag == 0x71 {
            Ok(Codec::DagCbor)
        } else if tag == 0x0129 {
            Ok(Codec::DagJson)
        } else if tag == 0x70 {
            Ok(Codec::DagPb)
        } else {
            Err(Error::IpldCodecError)
        }
    }

    /// Whether identifiers built for this codec carry the older version.
    pub fn is_legacy(self) -> (b: bool)
        ensures
            b == (self == Codec::DagPb),
    {
        match self {
            Codec::DagPb => true,
            _ => false,
        }
    }

    /// Writes `data` with this codec.
    ///
    /// DAG-CBOR and DAG-JSON write every payload; the raw and the legacy
    /// codec refuse with `AnyhowError`. What is written is not empty, and
    /// `decode` reads it back as `data`.
    pub fn encode(self, data: &[u8]) -> (r: Result<Vec<u8>, Error>)
        ensures
            match r {
                Ok(bytes) => self.encoded_spec(data@) == Some(bytes@) && bytes@.len() > 0
                    && self.decoded_spec(bytes@) == Some(data@),
                Err(e) => e == Error::AnyhowError && self.encoded_spec(data@) is None,
            },
    {
        match ipld_encode(self.tag(), data) {
            Some(bytes) => {
                proof {
                    lemma_narrowed_widened(data@);
                }
                Ok(bytes)
            },
            None => Err(Error::AnyhowError),
        }
    }

    /// Reads a byte payload from `bytes` with this codec.
    ///
    /// DAG-CBOR bytes are handed to the codec only where they begin with an
    /// array of integers, DAG-JSON text always, and nothing is read with the
    /// raw or the legacy codec. Returns what `decoded_spec` gives, and
    /// `AnyhowError` where that is `None`.
    pub fn decode(self, bytes: &[u8]) -> (r: Result<Vec<u8>, Error>)
        ensures
            match r {
                Ok(data) => self.decoded_spec(bytes@) == Some(data@),
                Err(e) => e == Error::AnyhowError && self.decoded_spec(bytes@) is None,
            },
    {
        let tag = self.tag();
        let handed_over = if tag == DAG_CBOR {
            is_integer_list(bytes)
        } else {
            tag == DAG_JSON
        };
        if !handed_over {
            return Err(Error::AnyhowError);
        }
        let items = match ipld_decode(tag, bytes) {
            Some(items) => items,
            None => {
                return Err(Error::AnyhowError);
            },
        };
        let mut data: Vec<u8> = Vec::new();
        let mut i: usize = 0;
        while i < items.len()
            invariant
                i <= items@.len(),
                data@.len() == i,
                decodable(self.tag_spec(), bytes@),
                codec_decoded(self.tag_spec(), bytes@) == Some(items@),
                forall|j: int| 0 <= j < i ==> 0 <= #[trigger] items@[j] <= 255,
                forall|j: int| 0 <= j < i ==> #[trigger] data@[j] == items@[j] as u8,
            decreases items@.len() - i,
        {
            let n: i128 = items[i];
            if n < 0 || n > 255 {
                assert(!(0 <= items@[i as int] <= 255));
                return Err(Error::AnyhowError);
            }
            data.push(n as u8);
            i = i + 1;
        }
        assert(data@ =~= narrowed(items@));
        Ok(data)
    }
}

/// Reading the bytes back from their integers gives the bytes.
pub proof fn lemma_narrowed_widened(data: Seq<u8>)
    ensures
        all_bytes(widened(data)),
        narrowed(widened(data)) == data,
{
    assert(narrowed(widened(data)) =~= data);
}

/// Each codec is the one that its own tag names.
pub proof fn lemma_tag_names_codec(codec: Codec)
    ensures
        Codec::from_tag_spec(codec.tag_spec()) == Some(codec),
{
}

} // verus!
