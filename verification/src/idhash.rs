//! Deterministic short identifiers derived from a name.

use vstd::prelude::*;
use sha2::{Digest, Sha256};
use crate::text::string_of;

verus! {

/// The SHA-256 digest of a byte string.
pub uninterp spec fn sha256_digest(data: Seq<u8>) -> Seq<u8>;

/// `Sha256::digest` of the `sha2` crate: the result is the SHA-256 digest of
/// `data`, which is 32 bytes long.
#[verifier::external_body]
fn sha256(data: &[u8]) -> (out: [u8; 32])
    ensures
        out@ == sha256_digest(data@),
{
    Sha256::digest(data).into()
}

/// The number that the bytes of `b` spell in base 256, first byte first.
pub open spec fn be_value(b: Seq<u8>) -> nat
    decreases b.len(),
{
    if b.len() == 0 {
        0
    } else {
        be_value(b.drop_last()) * 256 + b.last() as nat
    }
}

/// The character of a base-62 digit: `0`-`9`, then `A`-`Z`, then `a`-`z`.
pub open spec fn base62_char(d: nat) -> char {
    if d < 10 {
        (d + 48) as char
    } else if d < 36 {
        (d - 10 + 65) as char
    } else {
        (d - 36 + 97) as char
    }
}

/// The `count` lowest base-62 digits of `n`, lowest first.
pub open spec fn base62_digits(n: nat, count: nat) -> Seq<char>
    decreases count,
{
    if count == 0 {
        Seq::empty()
    } else {
        seq![base62_char(n % 62)] + base62_digits(n / 62, (count - 1) as nat)
    }
}

/// Whether `c` is an ASCII letter or digit.
pub open spec fn is_alphanumeric(c: char) -> bool {
    ('0' <= c && c <= '9') || ('A' <= c && c <= 'Z') || ('a' <= c && c <= 'z')
}

/// The identifier that a digest gives: its first 16 bytes as a number, the
/// low 9 bits dropped, written as 20 base-62 digits.
pub open spec fn id_of_digest(digest: Seq<u8>) -> Seq<char> {
    base62_digits(be_value(digest.take(16)) / 512, 20)
}

/// The identifier of a name.
pub open spec fn id_hash_spec(name: Seq<char>) -> Seq<char> {
    id_of_digest(sha256_digest(vstd::utf8::encode_utf8(name)))
}

spec fn pow256(k: nat) -> nat
    decreases k,
{
    if k == 0 {
        1
    } else {
        256 * pow256((k - 1) as nat)
    }
}

proof fn lemma_pow256_16()
    ensures
        pow256(16) == 0x1_0000_0000_0000_0000_0000_0000_0000_0000,
        forall|k: nat| k <= 16 ==> #[trigger] pow256(k) <= pow256(16),
{
    reveal_with_fuel(pow256, 17);
    assert(pow256(16) == 0x1_0000_0000_0000_0000_0000_0000_0000_0000);
    assert forall|k: nat| k <= 16 implies #[trigger] pow256(k) <= pow256(16) by {
        if k == 0 {
        } else if k == 1 {
        } else if k == 2 {
        } else if k == 3 {
        } else if k == 4 {
        } else if k == 5 {
        } else if k == 6 {
        } else if k == 7 {
        } else if k == 8 {
        } else if k == 9 {
        } else if k == 10 {
        } else if k == 11 {
        } else if k == 12 {
        } else if k == 13 {
        } else if k == 14 {
        } else if k == 15 {
        } else {
        }
    }
}

proof fn lemma_be_value_bound(b: Seq<u8>)
    ensures
        be_value(b) < pow256(b.len()),
    decreases b.len(),
{
    if b.len() > 0 {
        lemma_be_value_bound(b.drop_last());
    }
}

/// Every base-62 digit string has the length asked for and holds only ASCII
/// letters and digits.
pub proof fn lemma_base62_digits(n: nat, count: nat)
    ensures
        base62_digits(n, count).len() == count,
        forall|i: int| 0 <= i < count ==> is_alphanumeric(#[trigger] base62_digits(n, count)[i]),
    decreases count,
{
    if count > 0 {
        lemma_base62_digits(n / 62, (count - 1) as nat);
        let rest = base62_digits(n / 62, (count - 1) as nat);
        let d = n % 62;
        assert(is_alphanumeric(base62_char(d)));
        assert forall|i: int| 0 <= i < count implies is_alphanumeric(
            #[trigger] base62_digits(n, count)[i],
        ) by {
            if i > 0 {
                assert(base62_digits(n, count)[i] == rest[i - 1]);
            }
        }
    }
}

/// The number spelled by the first 16 bytes of `digest`.
fn leading_number(digest: &[u8; 32]) -> (num: u128)
    ensures
        num as nat == be_value(digest@.take(16)),
{
    let mut num: u128 = 0;
    let mut i: usize = 0;
    while i < 16
        invariant
            i <= 16,
            num as nat == be_value(digest@.take(i as int)),
        decreases 16 - i,
    {
        proof {
            let next = digest@.take(i as int + 1);
            assert(next.drop_last() == digest@.take(i as int));
            lemma_be_value_bound(digest@.take(i as int));
            lemma_be_value_bound(next);
            lemma_pow256_16();
            assert(pow256((i + 1) as nat) <= pow256(16));
        }
        num = num * 256 + digest[i] as u128;
        i = i + 1;
    }
    num
}

/// The character of one base-62 digit.
fn digit_char(d: u8) -> (c: char)
    requires
        d < 62,
    ensures
        c == base62_char(d as nat),
{
    if d < 10 {
        (d + 48) as char
    } else if d < 36 {
        (d - 10 + 65) as char
    } else {
        (d - 36 + 97) as char
    }
}

/// The identifier that a 256-bit digest gives.
pub fn id_from_digest(digest: &[u8; 32]) -> (id: String)
    ensures
        id@ == id_of_digest(digest@),
        id@.len() == 20,
        forall|i: int| 0 <= i < 20 ==> is_alphanumeric(#[trigger] id@[i]),
{
    let full = leading_number(digest);
    let mut num: u128 = full >> 9;
    assert(full >> 9 == full / 512) by (bit_vector);
    let ghost start: nat = num as nat;
    let mut out: Vec<char> = Vec::new();
    let mut i: usize = 0;
    while i < 20
        invariant
            i <= 20,
            out@ + base62_digits(num as nat, (20 - i) as nat) == base62_digits(start, 20),
        decreases 20 - i,
    {
        let m = (num % 62) as u8;
        let ghost before = out@;
        let ghost n0 = num as nat;
        out.push(digit_char(m));
        num = num / 62;
        i = i + 1;
        assert(out@ + base62_digits(num as nat, (20 - i) as nat) == before + base62_digits(
            n0,
            (20 - i + 1) as nat,
        ));
    }
    proof {
        assert(base62_digits(num as nat, 0) == Seq::<char>::empty());
        assert(out@ + Seq::<char>::empty() == out@);
        lemma_base62_digits(start, 20);
    }
    string_of(&out)
}

/// The identifier of `name`: 20 ASCII letters and digits, the same for the
/// same name every time.
pub fn id_hash(name: &str) -> (id: String)
    ensures
        id@ == id_hash_spec(name@),
        id@.len() == 20,
        forall|i: int| 0 <= i < 20 ==> is_alphanumeric(#[trigger] id@[i]),
{
    let digest = sha256(name.as_bytes());
    id_from_digest(&digest)
}

} // verus!
