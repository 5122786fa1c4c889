//! SHA-256 digests of byte streams and their hexadecimal form.

use vstd::prelude::*;

use crate::numbers::digit_value;
use crate::text::{is_digit, chars_of, byte_len, byte_len_ascii};

verus! {

broadcast use vstd::string::group_string_axioms;

/// The streaming hasher of the `sha2` crate.
#[verifier::external_type_specification]
#[verifier::external_body]
pub struct ExSha256(sha2::Sha256);

/// The bytes that a hasher has been fed so far, in order.
pub uninterp spec fn absorbed(hasher: sha2::Sha256) -> Seq<u8>;

/// The SHA-256 digest of a byte string.
pub uninterp spec fn sha256(data: Seq<u8>) -> Seq<u8>;

/// `sha2::Digest::new` for `Sha256`: a hasher that has been fed nothing.
#[verifier::external_body]
fn new_hasher() -> (r: sha2::Sha256)
    ensures
        absorbed(r) == Seq::<u8>::empty(),
{
    <sha2::Sha256 as sha2::Digest>::new()
}

/// `sha2::Digest::update` for `Sha256`: appends `chunk` to what the hasher was fed.
#[verifier::external_body]
fn feed_hasher(hasher: &mut sha2::Sha256, chunk: &[u8])
    ensures
        absorbed(*final(hasher)) == absorbed(*old(hasher)) + chunk@,
{
    sha2::Digest::update(hasher, chunk)
}

/// `sha2::Digest::finalize` for `Sha256`: the thirty-two byte digest of everything that
/// the hasher was fed.
#[verifier::external_body]
fn finish_hasher(hasher: sha2::Sha256) -> (r: Vec<u8>)
    ensures
        r@ == sha256(absorbed(hasher)),
        r@.len() == 32,
{
    sha2::Digest::finalize(hasher).to_vec()
}

/// The hexadecimal digit of a number below sixteen.
pub open spec fn hex_digit(n: int) -> char {
    if n < 10 {
        (48 + n) as char
    } else {
        (87 + n) as char
    }
}

/// The lower-case hexadecimal form of a byte string.
pub open spec fn hex(bytes: Seq<u8>) -> Seq<char>
    decreases bytes.len(),
{
    if bytes.len() == 0 {
        Seq::empty()
    } else {
        hex(bytes.drop_last()).push(hex_digit(bytes.last() as int / 16)).push(
            hex_digit(bytes.last() as int % 16),
        )
    }
}

/// A lower-case hexadecimal digit.
pub open spec fn is_hex_digit(c: char) -> bool {
    is_digit(c) || 'a' <= c <= 'f'
}

/// Sixty-four lower-case hexadecimal digits.
pub open spec fn is_sha256_text(s: Seq<char>) -> bool {
    s.len() == 64 && forall|i: int| 0 <= i < s.len() ==> is_hex_digit(#[trigger] s[i])
}

/// The hexadecimal form has two lower-case digits for each byte.
pub proof fn hex_shape(bytes: Seq<u8>)
    ensures
        hex(bytes).len() == 2 * bytes.len(),
        forall|i: int| 0 <= i < hex(bytes).len() ==> is_hex_digit(#[trigger] hex(bytes)[i]),
    decreases bytes.len(),
{
    if bytes.len() > 0 {
        hex_shape(bytes.drop_last());
    }
}

proof fn hex_digit_is_injective(a: int, b: int)
    requires
        0 <= a < 16,
        0 <= b < 16,
        hex_digit(a) == hex_digit(b),
    ensures
        a == b,
{
}

/// Different byte strings have different hexadecimal forms.
pub proof fn hex_is_injective(a: Seq<u8>, b: Seq<u8>)
    requires
        hex(a) == hex(b),
    ensures
        a == b,
    decreases a.len(),
{
    hex_shape(a);
    hex_shape(b);
    if a.len() > 0 {
        let x = hex(a);
        let y = hex(b);
        let n = x.len() as int;
        assert(x[n - 1] == y[n - 1]);
        assert(x[n - 2] == y[n - 2]);
        hex_digit_is_injective(a.last() as int / 16, b.last() as int / 16);
        hex_digit_is_injective(a.last() as int % 16, b.last() as int % 16);
        assert(x.take(n - 2) =~= hex(a.drop_last()));
        assert(y.take(n - 2) =~= hex(b.drop_last()));
        hex_is_injective(a.drop_last(), b.drop_last());
        assert(a =~= a.drop_last().push(a.last()));
        assert(b =~= b.drop_last().push(b.last()));
    } else {
        assert(a =~= b);
    }
}

fn digit_char(n: u8) -> (c: char)
    requires
        n < 16,
    ensures
        c == hex_digit(n as int),
{
    if n < 10 {
        (48 + n) as char
    } else {
        (87 + n) as char
    }
}

/// The lower-case hexadecimal form of a byte string.
pub fn lowercase_hex(bytes: &Vec<u8>) -> (r: String)
    ensures
        r@ == hex(bytes@),
{
    let mut r: String = String::new();
    let mut i: usize = 0;
    proof {
        assert(bytes@.take(0) =~= Seq::<u8>::empty());
    }
    while i < bytes.len()
        invariant
            i <= bytes@.len(),
            r@ == hex(bytes@.take(i as int)),
        decreases bytes@.len() - i,
    {
        let b: u8 = bytes[i];
        r.push(digit_char(b / 16));
        r.push(digit_char(b % 16));
        i = i + 1;
        proof {
            assert(bytes@.take(i as int).drop_last() =~= bytes@.take(i as int - 1));
        }
    }
    proof {
        assert(bytes@.take(bytes@.len() as int) =~= bytes@);
    }
    r
}

/// Whether a text is the lower-case hexadecimal form of a SHA-256 digest.
pub fn is_sha256_hex(s: &str) -> (r: bool)
    ensures
        r == is_sha256_text(s@),
{
    let v = chars_of(s);
    if v.len() != 64 {
        return false;
    }
    let mut i: usize = 0;
    while i < v.len()
        invariant
            i <= v@.len(),
            v@ == s@,
            forall|j: int| 0 <= j < i ==> is_hex_digit(#[trigger] v@[j]),
        decreases v@.len() - i,
    {
        let c = v[i];
        if !(('0' <= c && c <= '9') || ('a' <= c && c <= 'f')) {
            proof {
                assert(!is_hex_digit(v@[i as int]));
            }
            return false;
        }
        i = i + 1;
    }
    true
}

/// A digest text is made of one-byte characters.
pub proof fn sha256_text_bytes(s: Seq<char>)
    requires
        is_sha256_text(s),
    ensures
        byte_len(s) == 64,
{
    byte_len_ascii(s);
}

/// A byte stream that is counted and hashed while it is read, up to a limit.
pub struct StreamDigest {
    hasher: sha2::Sha256,
    size: u64,
    limit: u64,
}

impl StreamDigest {
    /// The bytes read so far.
    pub closed spec fn bytes(&self) -> Seq<u8> {
        absorbed(self.hasher)
    }

    /// The most bytes that are accepted.
    pub closed spec fn limit(&self) -> u64 {
        self.limit
    }

    /// The count is that of the bytes, and within the limit.
    #[verifier::type_invariant]
    closed spec fn counted(&self) -> bool {
        self.size == absorbed(self.hasher).len() && self.size <= self.limit
    }

    /// A stream of which nothing was read yet.
    pub fn new(limit: u64) -> (r: StreamDigest)
        ensures
            r.bytes() == Seq::<u8>::empty(),
            r.limit() == limit,
    {
        let hasher = new_hasher();
        StreamDigest { hasher, size: 0, limit }
    }

    /// Takes the next chunk, unless the stream would then be longer than its limit.
    pub fn feed(self, chunk: &[u8]) -> (r: Option<StreamDigest>)
        ensures
            r is Some <==> self.bytes().len() + chunk@.len() <= self.limit(),
            r matches Some(next) ==> next.bytes() == self.bytes() + chunk@ && next.limit()
                == self.limit(),
    {
        proof {
            use_type_invariant(&self);
        }
        let n: usize = chunk.len();
        if n as u64 > self.limit - self.size {
            return None;
        }
        let size: u64 = self.size + n as u64;
        let limit: u64 = self.limit;
        let mut hasher = self.hasher;
        feed_hasher(&mut hasher, chunk);
        Some(StreamDigest { hasher, size, limit })
    }

    /// The number of bytes read.
    pub fn size(&self) -> (r: u64)
        ensures
            r == self.bytes().len(),
    {
        proof {
            use_type_invariant(self);
        }
        self.size
    }

    /// The hexadecimal digest of the bytes read.
    pub fn finish(self) -> (r: String)
        ensures
            r@ == hex(sha256(self.bytes())),
            is_sha256_text(r@),
    {
        let digest = finish_hasher(self.hasher);
        proof {
            hex_shape(digest@);
        }
        lowercase_hex(&digest)
    }
}

/// In hexadecimal each byte is two digits, the first for its sixteens and the second for the
/// rest.
pub proof fn hex_names_each_byte(bytes: Seq<u8>, i: int)
    requires
        0 <= i < bytes.len(),
    ensures
        hex(bytes).len() == 2 * bytes.len(),
        digit_value(hex(bytes)[2 * i], 16) == Some(bytes[i] as int / 16),
        digit_value(hex(bytes)[2 * i + 1], 16) == Some(bytes[i] as int % 16),
    decreases bytes.len(),
{
    hex_shape(bytes);
    let front = bytes.drop_last();
    hex_shape(front);
    if i < front.len() {
        hex_names_each_byte(front, i);
        assert(hex(bytes)[2 * i] == hex(front)[2 * i]);
        assert(hex(bytes)[2 * i + 1] == hex(front)[2 * i + 1]);
        assert(front[i] == bytes[i]);
    } else {
        assert(bytes.last() == bytes[i]);
    }
}

} // verus!
