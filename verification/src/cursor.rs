//! Pagination cursors: the opaque `next_page` token is the base64-url
//! encoding of the decimal form of the last identifier a page returned.

use vstd::prelude::*;

verus! {

use vstd::arithmetic::div_mod::lemma_fundamental_div_mod;
use crate::ID;

/// The ASCII decimal representation of `n`, most significant digit first.
pub open spec fn dec_rep(n: nat) -> Seq<u8>
    decreases n,
{
    if n < 10 {
        seq![(48 + n) as u8]
    } else {
        dec_rep(n / 10) + seq![(48 + n % 10) as u8]
    }
}

/// All bytes are ASCII digits.
pub open spec fn all_digits(s: Seq<u8>) -> bool {
    forall|i: int| 0 <= i < s.len() ==> 48 <= #[trigger] s[i] <= 57
}

/// The value of an ASCII digit string, read most significant digit first.
pub open spec fn dec_val(s: Seq<u8>) -> int
    decreases s.len(),
{
    if s.len() == 0 {
        0
    } else {
        dec_val(s.drop_last()) * 10 + (s.last() - 48)
    }
}

pub proof fn lemma_dec_val_append(s: Seq<u8>, b: u8)
    ensures
        dec_val(s + seq![b]) == dec_val(s) * 10 + (b - 48),
{
    assert((s + seq![b]).drop_last() =~= s);
    assert((s + seq![b]).last() == b);
}

pub proof fn lemma_dec_rep_digits(n: nat)
    ensures
        dec_rep(n).len() >= 1,
        all_digits(dec_rep(n)),
    decreases n,
{
    if n >= 10 {
        lemma_dec_rep_digits(n / 10);
    }
}

/// Printing a value in decimal and reading the digits back yields the value.
pub proof fn lemma_dec_round_trip(n: nat)
    ensures
        dec_val(dec_rep(n)) == n,
    decreases n,
{
    if n < 10 {
        assert((48 + n) as u8 == 48 + n);
        assert(dec_rep(n) =~= seq![(48 + n) as u8]);
        assert(dec_rep(n).drop_last() =~= Seq::<u8>::empty());
        assert(dec_val(dec_rep(n)) == dec_val(Seq::<u8>::empty()) * 10 + ((48 + n) as u8 - 48));
    } else {
        assert((48 + n % 10) as u8 == 48 + n % 10);
        lemma_dec_round_trip(n / 10);
        lemma_dec_val_append(dec_rep(n / 10), (48 + n % 10) as u8);
        lemma_fundamental_div_mod(n as int, 10);
    }
}

pub proof fn lemma_dec_val_nonneg(s: Seq<u8>)
    requires
        all_digits(s),
    ensures
        dec_val(s) >= 0,
    decreases s.len(),
{
    if s.len() > 0 {
        assert(all_digits(s.drop_last()));
        lemma_dec_val_nonneg(s.drop_last());
    }
}

/// Reading more digits never shrinks the value: the value of a prefix is a
/// lower bound on the value of the whole digit string.
pub proof fn lemma_dec_val_prefix_le(s: Seq<u8>, i: int)
    requires
        all_digits(s),
        0 <= i <= s.len(),
    ensures
        dec_val(s.take(i)) <= dec_val(s),
    decreases s.len() - i,
{
    if i < s.len() {
        assert(s.take(i + 1).drop_last() =~= s.take(i));
        assert(all_digits(s.take(i)));
        lemma_dec_val_nonneg(s.take(i));
        assert(dec_val(s.take(i + 1)) == dec_val(s.take(i)) * 10 + (s[i] - 48));
        lemma_dec_val_prefix_le(s, i + 1);
    } else {
        assert(s.take(i) =~= s);
    }
}

/// Writes `n` as ASCII decimal digits.
pub fn to_decimal(n: ID) -> (r: Vec<u8>)
    requires
        0 <= n,
    ensures
        r@ == dec_rep(n as nat),
    decreases n,
{
    if n < 10 {
        let mut v: Vec<u8> = Vec::new();
        v.push(48 + n as u8);
        proof {
            assert(v@ =~= dec_rep(n as nat));
        }
        v
    } else {
        let mut v = to_decimal(n / 10);
        v.push(48 + (n % 10) as u8);
        proof {
            assert(v@ =~= dec_rep(n as nat));
        }
        v
    }
}

/// Reads an ASCII decimal digit string back into an identifier. Refuses an
/// empty string, any non-digit byte, and any value over `i64::MAX`.
pub fn parse_decimal(v: &Vec<u8>) -> (r: Option<ID>)
    ensures
        match r {
            Some(n) => v@.len() >= 1 && all_digits(v@) && dec_val(v@) == n && 0 <= n,
            None => !(v@.len() >= 1 && all_digits(v@) && dec_val(v@) <= i64::MAX),
        },
{
    if v.len() == 0 {
        return None;
    }
    let mut acc: i64 = 0;
    let mut i: usize = 0;
    while i < v.len()
        invariant
            0 <= i <= v@.len(),
            all_digits(v@.take(i as int)),
            acc == dec_val(v@.take(i as int)),
            0 <= acc <= i64::MAX,
        decreases v@.len() - i,
    {
        let b = v[i];
        if b < 48 || b > 57 {
            return None;
        }
        let d: i64 = (b - 48) as i64;
        proof {
            assert(v@.take(i + 1).drop_last() =~= v@.take(i as int));
            lemma_fundamental_div_mod(i64::MAX - d, 10);
        }
        if acc > (i64::MAX - d) / 10 {
            proof {
                assert(dec_val(v@.take(i + 1)) > i64::MAX);
                if all_digits(v@) {
                    lemma_dec_val_prefix_le(v@, i + 1);
                }
            }
            return None;
        }
        acc = acc * 10 + d;
        i = i + 1;
    }
    proof {
        assert(v@.take(i as int) =~= v@);
    }
    Some(acc)
}

/// What `base64_url::encode` returns of a byte string.
pub uninterp spec fn b64url_encode_of(bytes: Seq<u8>) -> Seq<char>;

/// What `base64_url::decode` returns of a string: the decoded bytes, or
/// nothing when the string is not valid base64-url.
pub uninterp spec fn b64url_decode_of(s: Seq<char>) -> Option<Seq<u8>>;

/// Relies on base64_url::encode (base64's URL_SAFE_NO_PAD engine): the
/// result is a function of the bytes alone, and base64_url::decode inverts
/// it, as the two crates document.
#[verifier::external_body]
pub(crate) fn b64url_encode(bytes: &Vec<u8>) -> (r: String)
    ensures
        r@ == b64url_encode_of(bytes@),
        b64url_decode_of(r@) == Some(bytes@),
{
    base64_url::encode(bytes.as_slice())
}

/// Relies on base64_url::decode (base64's URL_SAFE_NO_PAD engine): the
/// result is a function of the string alone; a malformed string is refused.
#[verifier::external_body]
pub(crate) fn b64url_decode(s: &str) -> (r: Option<Vec<u8>>)
    ensures
        match r {
            Some(v) => b64url_decode_of(s@) == Some(v@),
            None => b64url_decode_of(s@) is None,
        },
{
    match base64_url::decode(s) {
        Ok(v) => Some(v),
        Err(_) => None,
    }
}

/// The cursor that stands for "the page after identifier `id`".
pub open spec fn cursor_of(id: int) -> Seq<char> {
    b64url_encode_of(dec_rep(id as nat))
}

/// The identifier a cursor string stands for, when it is well formed: valid
/// base64-url whose decoded bytes are a decimal number that fits in an
/// identifier.
pub open spec fn cursor_val(s: Seq<char>) -> Option<int> {
    match b64url_decode_of(s) {
        Some(bytes) => if bytes.len() >= 1 && all_digits(bytes) && dec_val(bytes) <= i64::MAX {
            Some(dec_val(bytes))
        } else {
            None
        },
        None => Option::<int>::None,
    }
}

/// Encodes an identifier as an opaque pagination cursor. Decoding the
/// returned cursor gives the identifier back: no duplicate, no gap when the
/// caller resumes a listing from it.
pub fn cursor_encode(id: ID) -> (r: String)
    requires
        0 <= id,
    ensures
        r@ == cursor_of(id as int),
        cursor_val(r@) == Some(id as int),
{
    let digits = to_decimal(id);
    proof {
        lemma_dec_rep_digits(id as nat);
        lemma_dec_round_trip(id as nat);
    }
    b64url_encode(&digits)
}

/// Decodes a pagination cursor; a malformed cursor is refused.
pub fn cursor_decode(s: &str) -> (r: Option<ID>)
    ensures
        match r {
            Some(id) => cursor_val(s@) == Some(id as int) && 0 <= id,
            None => cursor_val(s@) is None,
        },
{
    match b64url_decode(s) {
        Some(bytes) => {
            proof {
                if all_digits(bytes@) {
                    lemma_dec_val_nonneg(bytes@);
                }
            }
            parse_decimal(&bytes)
        },
        None => None,
    }
}

} // verus!
