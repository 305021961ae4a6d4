//! Content-digest checking: the manifest identifies every file by the
//! lowercase-hex SHA-1 digest of its bytes, and a local file is kept only
//! when its digest equals the declared one.

use sha1::Digest;
use vstd::prelude::*;
use vstd::string::StrSliceExecFns;

verus! {

/// The digest of a byte string under the fixed content-digest algorithm
/// (SHA-1, the single algorithm the manifest uses for every entry kind).
/// Its value is a function of the bytes alone; the verifier knows it only
/// by this name, through the contract of `sha1_digest`.
pub uninterp spec fn sha1_of(bytes: Seq<u8>) -> Seq<u8>;

/// Relies on `sha1::Sha1` through `digest::Digest::digest`: the returned
/// digest is 20 bytes (the hasher's fixed output size) and depends on the
/// input bytes alone.
#[verifier::external_body]
fn sha1_digest(bytes: &[u8]) -> (r: Vec<u8>)
    ensures
        r@ == sha1_of(bytes@),
        r@.len() == 20,
{
    sha1::Sha1::digest(bytes).to_vec()
}

/// The lowercase hex digit standing for a value below sixteen.
pub open spec fn hex_char(n: u8) -> char
    recommends
        n < 16,
{
    if n == 0 {
        '0'
    } else if n == 1 {
        '1'
    } else if n == 2 {
        '2'
    } else if n == 3 {
        '3'
    } else if n == 4 {
        '4'
    } else if n == 5 {
        '5'
    } else if n == 6 {
        '6'
    } else if n == 7 {
        '7'
    } else if n == 8 {
        '8'
    } else if n == 9 {
        '9'
    } else if n == 10 {
        'a'
    } else if n == 11 {
        'b'
    } else if n == 12 {
        'c'
    } else if n == 13 {
        'd'
    } else if n == 14 {
        'e'
    } else {
        'f'
    }
}

/// Lowercase hex encoding of a byte string: two digits per byte, the high
/// nibble first.
pub open spec fn hex_seq(bytes: Seq<u8>) -> Seq<char>
    decreases bytes.len(),
{
    if bytes.len() == 0 {
        Seq::empty()
    } else {
        seq![hex_char(bytes[0] / 16), hex_char(bytes[0] % 16)] + hex_seq(bytes.drop_first())
    }
}

proof fn lemma_hex_seq_index(bytes: Seq<u8>)
    ensures
        hex_seq(bytes).len() == 2 * bytes.len(),
        forall|i: int|
            0 <= i < bytes.len() ==> hex_seq(bytes)[2 * i] == hex_char(#[trigger] bytes[i] / 16),
        forall|i: int|
            0 <= i < bytes.len() ==> hex_seq(bytes)[2 * i + 1] == hex_char(#[trigger] bytes[i] % 16),
    decreases bytes.len(),
{
    if bytes.len() > 0 {
        lemma_hex_seq_index(bytes.drop_first());
        assert forall|i: int| 0 <= i < bytes.len() implies hex_seq(bytes)[2 * i] == hex_char(
            #[trigger] bytes[i] / 16,
        ) && hex_seq(bytes)[2 * i + 1] == hex_char(bytes[i] % 16) by {
            if i > 0 {
                assert(bytes.drop_first()[i - 1] == bytes[i]);
                assert(hex_seq(bytes)[2 * i] == hex_seq(bytes.drop_first())[2 * (i - 1)]);
                assert(hex_seq(bytes)[2 * i + 1] == hex_seq(bytes.drop_first())[2 * (i - 1) + 1]);
            }
        }
    }
}

/// True exactly when `expected` is the lowercase hex encoding of the SHA-1
/// digest of `bytes`: the content at hand is the content the manifest
/// declared.
pub open spec fn content_matches(bytes: Seq<u8>, expected: Seq<char>) -> bool {
    hex_seq(sha1_of(bytes)) == expected
}

/// The hex digit for a nibble, as executable code.
fn hex_char_of(n: u8) -> (c: char)
    requires
        n < 16,
    ensures
        c == hex_char(n),
{
    if n == 0 {
        '0'
    } else if n == 1 {
        '1'
    } else if n == 2 {
        '2'
    } else if n == 3 {
        '3'
    } else if n == 4 {
        '4'
    } else if n == 5 {
        '5'
    } else if n == 6 {
        '6'
    } else if n == 7 {
        '7'
    } else if n == 8 {
        '8'
    } else if n == 9 {
        '9'
    } else if n == 10 {
        'a'
    } else if n == 11 {
        'b'
    } else if n == 12 {
        'c'
    } else if n == 13 {
        'd'
    } else if n == 14 {
        'e'
    } else {
        'f'
    }
}

/// Digest check: computes the content digest of `bytes` and compares its
/// lowercase hex encoding to `expected`, character by character.
pub fn verify_content(bytes: &[u8], expected: &str) -> (r: bool)
    ensures
        r == content_matches(bytes@, expected@),
{
    let digest = sha1_digest(bytes);
    proof {
        lemma_hex_seq_index(digest@);
    }
    let n = expected.unicode_len();
    if n != 40 {
        return false;
    }
    let mut i: usize = 0;
    while i < 20
        invariant
            0 <= i <= 20,
            digest@.len() == 20,
            digest@ == sha1_of(bytes@),
            expected@.len() == 40,
            hex_seq(digest@).len() == 40,
            forall|j: int|
                0 <= j < digest@.len() ==> hex_seq(digest@)[2 * j] == hex_char(
                    #[trigger] digest@[j] / 16,
                ),
            forall|j: int|
                0 <= j < digest@.len() ==> hex_seq(digest@)[2 * j + 1] == hex_char(
                    #[trigger] digest@[j] % 16,
                ),
            forall|j: int| 0 <= j < 2 * i ==> hex_seq(digest@)[j] == expected@[j],
        decreases 20 - i,
    {
        let b = digest[i];
        let hi = hex_char_of(b / 16);
        let lo = hex_char_of(b % 16);
        if expected.get_char(2 * i) != hi || expected.get_char(2 * i + 1) != lo {
            return false;
        }
        i = i + 1;
    }
    proof {
        assert(hex_seq(digest@) =~= expected@);
    }
    true
}

/// A hex digit: one of the thirty-six characters a well-formed digest may
/// hold (lowercase letters only, the manifest's canonical form).
pub open spec fn is_hex_digit(c: char) -> bool {
    ('0' <= c && c <= '9') || ('a' <= c && c <= 'f')
}

/// A well-formed content digest as the manifest carries it: exactly forty
/// lowercase hex characters. Any other length or charset is a malformed
/// manifest, not a verification mismatch.
pub open spec fn is_well_formed_digest(s: Seq<char>) -> bool {
    s.len() == 40 && forall|i: int| 0 <= i < s.len() ==> is_hex_digit(#[trigger] s[i])
}

/// Digest-format validation for manifest fields.
pub fn check_digest_format(s: &str) -> (r: bool)
    ensures
        r == is_well_formed_digest(s@),
{
    let n = s.unicode_len();
    if n != 40 {
        return false;
    }
    let mut i: usize = 0;
    while i < 40
        invariant
            0 <= i <= 40,
            s@.len() == 40,
            forall|j: int| 0 <= j < i ==> is_hex_digit(#[trigger] s@[j]),
        decreases 40 - i,
    {
        let c = s.get_char(i);
        let ok = ('0' <= c && c <= '9') || ('a' <= c && c <= 'f');
        if !ok {
            return false;
        }
        i = i + 1;
    }
    true
}

} // verus!
