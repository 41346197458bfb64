//! The fingerprint of a book file: the MD5 digest, in lower-case
//! hexadecimal digits, of the file's first 8 KiB followed by its length.

use vstd::prelude::*;
use vstd::arithmetic::div_mod::lemma_div_denominator;
use vstd::arithmetic::power::{lemma_pow0, lemma_pow1, lemma_pow_adds, lemma_pow_positive, pow};

verus! {

/// How many bytes of the file's beginning enter the fingerprint.
pub const HEAD_LIMIT: usize = 8192;

/// Byte number `index` of `value`, counted from the least significant one.
pub open spec fn byte_at(value: nat, index: nat) -> u8 {
    (value as int / pow(256, index) % 256) as u8
}

/// The eight bytes of `value`, least significant first.
pub open spec fn little_endian(value: u64) -> Seq<u8> {
    Seq::new(8, |index: int| byte_at(value as nat, index as nat))
}

/// What is digested: at most the first `HEAD_LIMIT` bytes of `head`, then
/// the file's length in eight bytes, least significant first.
pub open spec fn fingerprint_data(head: Seq<u8>, file_size: u64) -> Seq<u8> {
    let kept = if head.len() <= HEAD_LIMIT {
        head
    } else {
        head.take(HEAD_LIMIT as int)
    };
    kept + little_endian(file_size)
}

/// The sixteen hexadecimal digits, in lower case.
pub open spec fn hex_digits() -> Seq<char> {
    "0123456789abcdef"@
}

/// `bytes` in hexadecimal digits: two for each byte, the high half first.
pub open spec fn hex_lower(bytes: Seq<u8>) -> Seq<char> {
    Seq::new(
        2 * bytes.len(),
        |index: int|
            if index % 2 == 0 {
                hex_digits()[bytes[index / 2] as int / 16]
            } else {
                hex_digits()[bytes[index / 2] as int % 16]
            },
    )
}

/// The MD5 digest of `data`.
pub uninterp spec fn md5_digest(data: Seq<u8>) -> Seq<u8>;

/// Calls `md5::compute`, which digests `data` as RFC 1321 lays down, and
/// hands out the sixteen bytes of the digest.
#[verifier::external_body]
fn md5_of(data: &[u8]) -> (digest: Vec<u8>)
    ensures
        digest@ == md5_digest(data@),
        digest@.len() == 16,
{
    md5::compute(data).0.to_vec()
}

/// The eight bytes of `value`, least significant first.
pub fn length_bytes(value: u64) -> (bytes: Vec<u8>)
    ensures
        bytes@ == little_endian(value),
{
    let mut bytes: Vec<u8> = Vec::new();
    let mut rest: u64 = value;
    let mut index: usize = 0;
    proof {
        lemma_pow0(256);
    }
    while index < 8
        invariant
            index <= 8,
            bytes@.len() == index,
            forall|k: int| 0 <= k < index ==> bytes@[k] == byte_at(value as nat, k as nat),
            rest == value as int / pow(256, index as nat),
        decreases 8 - index,
    {
        proof {
            lemma_pow_positive(256, index as nat);
            lemma_pow_adds(256, index as nat, 1);
            lemma_pow1(256);
            lemma_div_denominator(value as int, pow(256, index as nat), 256);
        }
        bytes.push((rest % 256) as u8);
        rest = rest / 256;
        index += 1;
    }
    assert(bytes@ =~= little_endian(value));
    bytes
}

/// What is digested for a file that begins with `head` and is `file_size`
/// bytes long.
pub fn fingerprint_input(head: &[u8], file_size: u64) -> (data: Vec<u8>)
    ensures
        data@ == fingerprint_data(head@, file_size),
{
    let kept: usize = if head.len() <= HEAD_LIMIT {
        head.len()
    } else {
        HEAD_LIMIT
    };
    let mut data: Vec<u8> = Vec::new();
    let mut index: usize = 0;
    while index < kept
        invariant
            index <= kept <= head.len(),
            data@ == head@.take(index as int),
        decreases kept - index,
    {
        data.push(head[index]);
        index += 1;
        assert(data@ =~= head@.take(index as int));
    }
    assert(head@.take(head.len() as int) =~= head@);
    let mut length = length_bytes(file_size);
    data.append(&mut length);
    data
}

/// The hexadecimal digit of `nibble`.
fn hex_digit(nibble: u8) -> (digit: &'static str)
    requires
        nibble < 16,
    ensures
        digit@ == seq![hex_digits()[nibble as int]],
{
    proof {
        reveal_strlit("0123456789abcdef");
    }
    let digit = "0123456789abcdef".substring_char(nibble as usize, nibble as usize + 1);
    assert(digit@ =~= seq![hex_digits()[nibble as int]]);
    digit
}

/// `bytes` in lower-case hexadecimal digits.
pub fn to_hex(bytes: &[u8]) -> (text: String)
    ensures
        text@ == hex_lower(bytes@),
{
    let mut text = String::new();
    let mut index: usize = 0;
    while index < bytes.len()
        invariant
            index <= bytes.len(),
            text@ == hex_lower(bytes@.take(index as int)),
        decreases bytes.len() - index,
    {
        let byte = bytes[index];
        let ghost before = text@;
        text.append(hex_digit(byte / 16));
        text.append(hex_digit(byte % 16));
        index += 1;
        proof {
            let shorter = bytes@.take(index - 1);
            let longer = bytes@.take(index as int);
            assert forall|k: int| 0 <= k < 2 * longer.len() implies text@[k] == hex_lower(
                longer,
            )[k] by {
                if k < 2 * shorter.len() {
                    assert(text@[k] == before[k]);
                    assert(shorter[k / 2] == longer[k / 2]);
                }
            }
            assert(text@ =~= hex_lower(longer));
        }
    }
    assert(bytes@.take(bytes.len() as int) =~= bytes@);
    text
}

/// The fingerprint of a file that begins with `head` and is `file_size`
/// bytes long: thirty-two hexadecimal digits.
pub fn calculate_book_hash(head: &[u8], file_size: u64) -> (hash: String)
    ensures
        hash@ == hex_lower(md5_digest(fingerprint_data(head@, file_size))),
        hash@.len() == 32,
{
    let data = fingerprint_input(head, file_size);
    let digest = md5_of(data.as_slice());
    to_hex(digest.as_slice())
}

} // verus!
