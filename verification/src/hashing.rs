use vstd::prelude::*;
use crate::text::push_char;

verus! {

/// The SHA-256 digest of the UTF-8 encoding of a text.
pub uninterp spec fn sha256_of_text(text: Seq<char>) -> Seq<u8>;

/// SHA-256 of the UTF-8 bytes of `text`.
///
/// Trusted: calls `sha2::Sha256::digest` on `text.as_bytes()`. The contract
/// claims that the digest depends on the text alone (it is named
/// `sha256_of_text`) and that it is 32 bytes long, the output size that
/// `Sha256` declares; the digest's value itself is not stated.
#[verifier::external_body]
fn sha256_digest(text: &str) -> (d: Vec<u8>)
    ensures
        d@ == sha256_of_text(text@),
        d@.len() == 32,
{
    <sha2::Sha256 as sha2::Digest>::digest(text.as_bytes()).to_vec()
}

/// The lower-case hexadecimal digit for `v` (for `v < 16`).
pub open spec fn hex_digit(v: nat) -> char {
    if v < 10 {
        (v + 48) as char
    } else {
        (v + 87) as char
    }
}

/// Lower-case hexadecimal notation of a byte string, two digits per byte.
pub open spec fn hex_lower(bytes: Seq<u8>) -> Seq<char>
    decreases bytes.len(),
{
    if bytes.len() == 0 {
        Seq::empty()
    } else {
        hex_lower(bytes.drop_last()) + seq![
            hex_digit((bytes.last() / 16) as nat),
            hex_digit((bytes.last() % 16) as nat),
        ]
    }
}

/// A character is a lower-case hexadecimal digit.
pub open spec fn is_hex_lower(c: char) -> bool {
    ('0' <= c && c <= '9') || ('a' <= c && c <= 'f')
}

fn hex_char(v: u8) -> (c: char)
    requires
        v < 16,
    ensures
        c == hex_digit(v as nat),
{
    if v < 10 {
        (48u8 + v) as char
    } else {
        (87u8 + v) as char
    }
}

/// Lower-case hexadecimal notation of `bytes`.
pub fn to_hex_lower(bytes: &[u8]) -> (s: String)
    ensures
        s@ == hex_lower(bytes@),
{
    let mut s = String::new();
    let n = bytes.len();
    let mut i: usize = 0;
    while i < n
        invariant
            n == bytes@.len(),
            i <= n,
            s@ == hex_lower(bytes@.take(i as int)),
        decreases n - i,
    {
        let b = bytes[i];
        push_char(&mut s, hex_char(b / 16));
        push_char(&mut s, hex_char(b % 16));
        i = i + 1;
        assert(bytes@.take(i as int).drop_last() =~= bytes@.take(i - 1));
        assert(s@ =~= hex_lower(bytes@.take(i as int)));
    }
    assert(bytes@.take(n as int) =~= bytes@);
    s
}

/// The hex notation has two digits per byte, each a lower-case hex digit.
pub proof fn lemma_hex_lower_shape(bytes: Seq<u8>)
    ensures
        hex_lower(bytes).len() == 2 * bytes.len(),
        forall|i: int| 0 <= i < hex_lower(bytes).len() ==> is_hex_lower(#[trigger] hex_lower(bytes)[i]),
    decreases bytes.len(),
{
    if bytes.len() > 0 {
        lemma_hex_lower_shape(bytes.drop_last());
        let h = hex_lower(bytes);
        let p = hex_lower(bytes.drop_last());
        assert forall|i: int| 0 <= i < h.len() implies is_hex_lower(#[trigger] h[i]) by {
            if i < p.len() {
                assert(h[i] == p[i]);
            }
        }
    }
}

/// The number that a hexadecimal digit (`0`-`9`, `a`-`f`) stands for.
pub open spec fn hex_value(c: char) -> int {
    if '0' <= c && c <= '9' {
        c as int - '0' as int
    } else {
        c as int - 'a' as int + 10
    }
}

/// Reading the hex notation back, two digits at a time, gives the bytes:
/// digit `2i` is the high half of byte `i` and digit `2i + 1` the low half.
pub proof fn lemma_hex_lower_decodes(bytes: Seq<u8>)
    ensures
        hex_lower(bytes).len() == 2 * bytes.len(),
        forall|i: int|
            0 <= i < bytes.len() ==> hex_value(#[trigger] hex_lower(bytes)[2 * i]) * 16 + hex_value(
                hex_lower(bytes)[2 * i + 1],
            ) == bytes[i] as int,
    decreases bytes.len(),
{
    if bytes.len() > 0 {
        let b = bytes.drop_last();
        lemma_hex_lower_decodes(b);
        let h = hex_lower(bytes);
        let p = hex_lower(b);
        let last = bytes.last();
        assert(hex_value(hex_digit((last / 16) as nat)) == last / 16);
        assert(hex_value(hex_digit((last % 16) as nat)) == last % 16);
        assert forall|i: int| 0 <= i < bytes.len() implies hex_value(#[trigger] h[2 * i]) * 16
            + hex_value(h[2 * i + 1]) == bytes[i] as int by {
            if i < b.len() {
                assert(h[2 * i] == p[2 * i]);
                assert(h[2 * i + 1] == p[2 * i + 1]);
                assert(bytes[i] == b[i]);
            } else {
                assert(i == b.len());
                assert(h[2 * i] == hex_digit((last / 16) as nat));
                assert(h[2 * i + 1] == hex_digit((last % 16) as nat));
            }
        }
    }
}

/// The text by which a client address or a password is stored: the lower-case
/// hexadecimal SHA-256 digest of the text.
pub open spec fn hash_text_spec(text: Seq<char>) -> Seq<char> {
    hex_lower(sha256_of_text(text))
}

/// The lower-case hexadecimal SHA-256 digest of `text`, by which client
/// addresses and post passwords are stored.
pub fn hash_text(text: &str) -> (h: String)
    ensures
        h@ == hash_text_spec(text@),
        h@.len() == 64,
        forall|i: int| 0 <= i < h@.len() ==> is_hex_lower(#[trigger] h@[i]),
        // Read two digits at a time, the hash is the SHA-256 digest of the
        // whole of `text`, byte for byte.
        sha256_of_text(text@).len() == 32,
        forall|i: int|
            0 <= i < 32 ==> hex_value(#[trigger] h@[2 * i]) * 16 + hex_value(h@[2 * i + 1])
                == sha256_of_text(text@)[i] as int,
{
    let d = sha256_digest(text);
    let h = to_hex_lower(d.as_slice());
    proof {
        lemma_hex_lower_shape(d@);
        lemma_hex_lower_decodes(d@);
    }
    h
}

/// Two texts are stored under the same hash exactly when their SHA-256
/// digests are the same: the hash is a faithful notation of the digest of
/// the whole text.
pub proof fn lemma_equal_hashes_iff_equal_digests(a: Seq<char>, b: Seq<char>)
    ensures
        hash_text_spec(a) == hash_text_spec(b) <==> sha256_of_text(a) == sha256_of_text(b),
{
    let x = sha256_of_text(a);
    let y = sha256_of_text(b);
    lemma_hex_lower_decodes(x);
    lemma_hex_lower_decodes(y);
    if hex_lower(x) == hex_lower(y) {
        assert(x.len() == y.len());
        assert forall|i: int| 0 <= i < x.len() implies x[i] == y[i] by {
            assert(hex_lower(x)[2 * i] == hex_lower(y)[2 * i]);
            assert(hex_lower(x)[2 * i + 1] == hex_lower(y)[2 * i + 1]);
        }
        assert(x =~= y);
    }
}

} // verus!
