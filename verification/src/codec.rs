use vstd::prelude::*;

use crate::errors::SyncError;
use crate::text::push_char;

verus! {

/// The alphabet of URL-safe base64 (RFC 4648 section 5), as the code point of
/// the digit for each 6-bit value.
pub open spec fn b64_digit(v: u8) -> u8
    recommends
        v < 64,
{
    if v < 26 {
        (v + 'A' as u8) as u8
    } else if v < 52 {
        (v - 26 + 'a' as u8) as u8
    } else if v < 62 {
        (v - 52 + '0' as u8) as u8
    } else if v == 62 {
        '-' as u8
    } else {
        '_' as u8
    }
}

/// The digit character for a 6-bit value.
pub open spec fn b64_char(v: u8) -> char {
    b64_digit(v) as char
}

/// URL-safe base64 without padding: each 3-byte group becomes 4 digits, a
/// trailing group of 1 or 2 bytes becomes 2 or 3 digits, and no `=` padding
/// is appended.
pub open spec fn b64_encode(bs: Seq<u8>) -> Seq<char>
    decreases bs.len(),
{
    if bs.len() == 0 {
        Seq::empty()
    } else if bs.len() == 1 {
        seq![b64_char(bs[0] >> 2), b64_char((bs[0] & 3) << 4)]
    } else if bs.len() == 2 {
        seq![
            b64_char(bs[0] >> 2),
            b64_char(((bs[0] & 3) << 4) | (bs[1] >> 4)),
            b64_char((bs[1] & 15) << 2),
        ]
    } else {
        seq![
            b64_char(bs[0] >> 2),
            b64_char(((bs[0] & 3) << 4) | (bs[1] >> 4)),
            b64_char(((bs[1] & 15) << 2) | (bs[2] >> 6)),
            b64_char(bs[2] & 63),
        ] + b64_encode(bs.skip(3))
    }
}

/// Distinct 6-bit values have distinct digits: the four alphabet ranges are
/// disjoint and each is strictly increasing.
proof fn lemma_b64_digit_injective(x: u8, y: u8)
    requires
        x < 64,
        y < 64,
        b64_char(x) == b64_char(y),
    ensures
        x == y,
{
    assert(b64_digit(x) < 128 && b64_digit(y) < 128);
    assert(b64_digit(x) as u32 == b64_char(x) as u32);
    assert(b64_digit(y) as u32 == b64_char(y) as u32);
    assert(b64_digit(x) == b64_digit(y));
}

/// Byte sequences of one length encode injectively: the 6-bit groups of the
/// digits recover every input byte.
pub proof fn lemma_b64_encode_injective(a: Seq<u8>, b: Seq<u8>)
    requires
        a.len() == b.len(),
        b64_encode(a) == b64_encode(b),
    ensures
        a =~= b,
    decreases a.len(),
{
    if a.len() == 0 {
    } else if a.len() == 1 {
        let a0 = a[0];
        let b0 = b[0];
        assert(a0 >> 2 < 64 && (a0 & 3) << 4 < 64 && b0 >> 2 < 64 && (b0 & 3) << 4 < 64)
            by (bit_vector);
        assert(b64_encode(a)[0] == b64_char(a0 >> 2) && b64_encode(a)[1] == b64_char(
            (a0 & 3) << 4,
        ));
        assert(b64_encode(b)[0] == b64_char(b0 >> 2) && b64_encode(b)[1] == b64_char(
            (b0 & 3) << 4,
        ));
        lemma_b64_digit_injective(a0 >> 2, b0 >> 2);
        lemma_b64_digit_injective((a0 & 3) << 4, (b0 & 3) << 4);
        assert((a0 >> 2 == b0 >> 2 && (a0 & 3) << 4 == (b0 & 3) << 4) ==> a0 == b0)
            by (bit_vector);
        assert(a =~= b);
    } else if a.len() == 2 {
        let a0 = a[0];
        let a1 = a[1];
        let b0 = b[0];
        let b1 = b[1];
        assert(a0 >> 2 < 64 && ((a0 & 3) << 4) | (a1 >> 4) < 64 && (a1 & 15) << 2 < 64 && b0 >> 2
            < 64 && ((b0 & 3) << 4) | (b1 >> 4) < 64 && (b1 & 15) << 2 < 64) by (bit_vector);
        assert(b64_encode(a)[0] == b64_char(a0 >> 2) && b64_encode(a)[1] == b64_char(
            ((a0 & 3) << 4) | (a1 >> 4),
        ) && b64_encode(a)[2] == b64_char((a1 & 15) << 2));
        assert(b64_encode(b)[0] == b64_char(b0 >> 2) && b64_encode(b)[1] == b64_char(
            ((b0 & 3) << 4) | (b1 >> 4),
        ) && b64_encode(b)[2] == b64_char((b1 & 15) << 2));
        lemma_b64_digit_injective(a0 >> 2, b0 >> 2);
        lemma_b64_digit_injective(((a0 & 3) << 4) | (a1 >> 4), ((b0 & 3) << 4) | (b1 >> 4));
        lemma_b64_digit_injective((a1 & 15) << 2, (b1 & 15) << 2);
        assert((a0 >> 2 == b0 >> 2 && ((a0 & 3) << 4) | (a1 >> 4) == ((b0 & 3) << 4) | (b1 >> 4)
            && (a1 & 15) << 2 == (b1 & 15) << 2) ==> (a0 == b0 && a1 == b1)) by (bit_vector);
        assert(a =~= b);
    } else {
        let a0 = a[0];
        let a1 = a[1];
        let a2 = a[2];
        let b0 = b[0];
        let b1 = b[1];
        let b2 = b[2];
        assert(a0 >> 2 < 64 && ((a0 & 3) << 4) | (a1 >> 4) < 64 && ((a1 & 15) << 2) | (a2 >> 6)
            < 64 && a2 & 63 < 64) by (bit_vector);
        assert(b0 >> 2 < 64 && ((b0 & 3) << 4) | (b1 >> 4) < 64 && ((b1 & 15) << 2) | (b2 >> 6)
            < 64 && b2 & 63 < 64) by (bit_vector);
        assert(b64_encode(a)[0] == b64_char(a0 >> 2) && b64_encode(a)[1] == b64_char(
            ((a0 & 3) << 4) | (a1 >> 4),
        ) && b64_encode(a)[2] == b64_char(((a1 & 15) << 2) | (a2 >> 6)) && b64_encode(a)[3]
            == b64_char(a2 & 63));
        assert(b64_encode(b)[0] == b64_char(b0 >> 2) && b64_encode(b)[1] == b64_char(
            ((b0 & 3) << 4) | (b1 >> 4),
        ) && b64_encode(b)[2] == b64_char(((b1 & 15) << 2) | (b2 >> 6)) && b64_encode(b)[3]
            == b64_char(b2 & 63));
        lemma_b64_digit_injective(a0 >> 2, b0 >> 2);
        lemma_b64_digit_injective(((a0 & 3) << 4) | (a1 >> 4), ((b0 & 3) << 4) | (b1 >> 4));
        lemma_b64_digit_injective(((a1 & 15) << 2) | (a2 >> 6), ((b1 & 15) << 2) | (b2 >> 6));
        lemma_b64_digit_injective(a2 & 63, b2 & 63);
        assert((a0 >> 2 == b0 >> 2 && ((a0 & 3) << 4) | (a1 >> 4) == ((b0 & 3) << 4) | (b1 >> 4)
            && ((a1 & 15) << 2) | (a2 >> 6) == ((b1 & 15) << 2) | (b2 >> 6) && a2 & 63 == b2 & 63)
            ==> (a0 == b0 && a1 == b1 && a2 == b2)) by (bit_vector);
        let ra = b64_encode(a.skip(3));
        let rb = b64_encode(b.skip(3));
        let head_a = seq![
            b64_char(a0 >> 2),
            b64_char(((a0 & 3) << 4) | (a1 >> 4)),
            b64_char(((a1 & 15) << 2) | (a2 >> 6)),
            b64_char(a2 & 63),
        ];
        let head_b = seq![
            b64_char(b0 >> 2),
            b64_char(((b0 & 3) << 4) | (b1 >> 4)),
            b64_char(((b1 & 15) << 2) | (b2 >> 6)),
            b64_char(b2 & 63),
        ];
        assert(b64_encode(a) == head_a + ra);
        assert(b64_encode(b) == head_b + rb);
        assert(ra.len() == b64_encode(a).len() - 4 && rb.len() == b64_encode(b).len() - 4);
        assert forall|i: int| 0 <= i < ra.len() implies ra[i] == rb[i] by {
            assert(ra[i] == (head_a + ra)[i + 4]);
            assert(rb[i] == (head_b + rb)[i + 4]);
        }
        assert(ra =~= rb);
        lemma_b64_encode_injective(a.skip(3), b.skip(3));
        assert forall|i: int| 0 <= i < a.len() implies a[i] == b[i] by {
            if i >= 3 {
                assert(a[i] == a.skip(3)[i - 3]);
                assert(b[i] == b.skip(3)[i - 3]);
            }
        }
        assert(a =~= b);
    }
}

/// The encoded form of a byte sequence of one length has a fixed length, and
/// in particular sixteen bytes always encode to twenty-two digits.
pub proof fn lemma_b64_encode_len(bs: Seq<u8>)
    ensures
        bs.len() % 3 == 0 ==> b64_encode(bs).len() == bs.len() / 3 * 4,
        bs.len() % 3 == 1 ==> b64_encode(bs).len() == bs.len() / 3 * 4 + 2,
        bs.len() % 3 == 2 ==> b64_encode(bs).len() == bs.len() / 3 * 4 + 3,
    decreases bs.len(),
{
    if bs.len() >= 3 {
        lemma_b64_encode_len(bs.skip(3));
    }
}

/// What `uuid::Uuid::parse_str` recovers from a textual id: the sixteen bytes
/// of the id when the text is one of the accepted UUID formats, or nothing.
pub uninterp spec fn uuid_bytes_of(s: Seq<char>) -> Option<Seq<u8>>;

/// A hexadecimal digit, in either case.
pub open spec fn is_hex_digit(c: char) -> bool {
    ('0' <= c && c <= '9') || ('a' <= c && c <= 'f') || ('A' <= c && c <= 'F')
}

/// The canonical hyphenated UUID format: 36 characters, hex digits in groups
/// of 8-4-4-4-12 separated by hyphens.
pub open spec fn is_hyphenated_uuid(s: Seq<char>) -> bool {
    s.len() == 36 && forall|i: int|
        0 <= i < 36 ==> (if i == 8 || i == 13 || i == 18 || i == 23 {
            s[i] == '-'
        } else {
            is_hex_digit(#[trigger] s[i])
        })
}

/// Relies on uuid::Uuid::parse_str and Uuid::into_bytes: parsing accepts
/// exactly the crate's UUID formats (simple, hyphenated, braced, URN), is a
/// function of the text alone, always succeeds on the canonical hyphenated
/// format, and yields the id's sixteen bytes.
#[verifier::external_body]
fn parse_uuid_bytes(id: &str) -> (r: Result<Vec<u8>, SyncError>)
    ensures
        r is Ok <==> uuid_bytes_of(id@) is Some,
        r matches Ok(bs) ==> uuid_bytes_of(id@) == Some(bs@) && bs@.len() == 16,
        is_hyphenated_uuid(id@) ==> r is Ok,
        r matches Err(e) ==> e is InvalidIdentity,
{
    match uuid::Uuid::parse_str(id) {
        Ok(u) => Ok(u.into_bytes().to_vec()),
        Err(_) => Err(SyncError::InvalidIdentity),
    }
}

/// Encodes bytes as URL-safe base64 without padding.
pub fn base64_url_nopad(bytes: &Vec<u8>) -> (r: String)
    ensures
        r@ == b64_encode(bytes@),
{
    let mut out = String::new();
    let mut i: usize = 0;
    proof {
        assert(bytes@.skip(0) =~= bytes@);
    }
    while bytes.len() - i >= 3
        invariant
            0 <= i <= bytes@.len(),
            out@ + b64_encode(bytes@.skip(i as int)) == b64_encode(bytes@),
        decreases bytes@.len() - i,
    {
        let b0 = bytes[i];
        let b1 = bytes[i + 1];
        let b2 = bytes[i + 2];
        proof {
            assert(b0 >> 2 < 64 && ((b0 & 3) << 4) | (b1 >> 4) < 64 && ((b1 & 15) << 2) | (b2 >> 6)
                < 64 && b2 & 63 < 64) by (bit_vector);
        }
        push_char(&mut out, b64_byte_char(b0 >> 2));
        push_char(&mut out, b64_byte_char(((b0 & 3) << 4) | (b1 >> 4)));
        push_char(&mut out, b64_byte_char(((b1 & 15) << 2) | (b2 >> 6)));
        push_char(&mut out, b64_byte_char(b2 & 63));
        proof {
            assert(bytes@.skip(i as int).len() >= 3);
            assert(bytes@.skip(i as int)[0] == b0 && bytes@.skip(i as int)[1] == b1 && bytes@.skip(
                i as int,
            )[2] == b2);
            assert(bytes@.skip(i as int).skip(3) =~= bytes@.skip(i + 3));
        }
        i += 3;
    }
    if bytes.len() - i == 1 {
        let b0 = bytes[i];
        proof {
            assert(b0 >> 2 < 64 && (b0 & 3) << 4 < 64) by (bit_vector);
        }
        push_char(&mut out, b64_byte_char(b0 >> 2));
        push_char(&mut out, b64_byte_char((b0 & 3) << 4));
        proof {
            assert(bytes@.skip(i as int).len() == 1);
            assert(bytes@.skip(i as int)[0] == b0);
        }
    } else if bytes.len() - i == 2 {
        let b0 = bytes[i];
        let b1 = bytes[i + 1];
        proof {
            assert(b0 >> 2 < 64 && ((b0 & 3) << 4) | (b1 >> 4) < 64 && (b1 & 15) << 2 < 64)
                by (bit_vector);
        }
        push_char(&mut out, b64_byte_char(b0 >> 2));
        push_char(&mut out, b64_byte_char(((b0 & 3) << 4) | (b1 >> 4)));
        push_char(&mut out, b64_byte_char((b1 & 15) << 2));
        proof {
            assert(bytes@.skip(i as int).len() == 2);
            assert(bytes@.skip(i as int)[0] == b0 && bytes@.skip(i as int)[1] == b1);
        }
    } else {
        proof {
            assert(bytes@.skip(i as int).len() == 0);
        }
    }
    out
}

/// The digit character for a 6-bit value, executably.
fn b64_byte_char(v: u8) -> (c: char)
    requires
        v < 64,
    ensures
        c == b64_char(v),
{
    let d: u8 = if v < 26 {
        v + 'A' as u8
    } else if v < 52 {
        v - 26 + 'a' as u8
    } else if v < 62 {
        v - 52 + '0' as u8
    } else if v == 62 {
        '-' as u8
    } else {
        '_' as u8
    };
    d as char
}

/// The stable key of a work item: its UUID's sixteen bytes in URL-safe
/// base64 without padding. Fails with `InvalidIdentity` exactly when the id
/// is not a well-formed UUID; any canonical hyphenated UUID is accepted.
///
/// Two distinct ids never collide (`lemma_stable_key_injective`), and the
/// key is a pure function of the id's bytes, so the same id encodes to the
/// same key on every call and every run.
pub fn convert_uuid(id: &str) -> (r: Result<String, SyncError>)
    ensures
        r is Ok <==> uuid_bytes_of(id@) is Some,
        r matches Ok(k) ==> uuid_bytes_of(id@) matches Some(bs) && k@ == b64_encode(bs),
        r matches Ok(k) ==> k@.len() == 22,
        is_hyphenated_uuid(id@) ==> r is Ok,
        r matches Err(e) ==> e is InvalidIdentity,
{
    match parse_uuid_bytes(id) {
        Ok(bytes) => {
            proof {
                lemma_b64_encode_len(bytes@);
            }
            Ok(base64_url_nopad(&bytes))
        },
        Err(e) => Err(e),
    }
}

/// Distinct ids have distinct stable keys: the base64 encoding of the
/// sixteen id bytes is injective.
pub proof fn lemma_stable_key_injective(a: Seq<u8>, b: Seq<u8>)
    requires
        a.len() == 16,
        b.len() == 16,
        a != b,
    ensures
        b64_encode(a) != b64_encode(b),
{
    if b64_encode(a) == b64_encode(b) {
        lemma_b64_encode_injective(a, b);
    }
}

} // verus!
