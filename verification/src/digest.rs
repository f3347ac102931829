//! Hex encodings and the content digest used for per-workspace cache names.
//!
//! The language server's per-workspace data directory is named after a SHA-1
//! digest of the workspace root path, and the port file of the local proxy is
//! named after the hex encoding of the workspace root itself.  Hex encoding
//! is verified here; the digest is an outside computation given a name.

use vstd::prelude::*;
use vstd::string::StrSliceExecFns;
use vstd::string::StringSliceAdditionalSpecFns;
use sha1::Digest;
use crate::strutil::hex_digit_of;

verus! {

/// Lowercase hex encoding of a byte string, two digits per byte.
pub open spec fn hex_of_bytes(data: Seq<u8>) -> Seq<char>
    decreases data.len(),
{
    if data.len() == 0 {
        Seq::empty()
    } else {
        seq![hex_digit_of((data[0] >> 4) as u32), hex_digit_of((data[0] & 0xf) as u32)]
            + hex_of_bytes(data.drop_first())
    }
}

proof fn lemma_hex_of_bytes_push(data: Seq<u8>, x: u8)
    ensures
        hex_of_bytes(data.push(x)) == hex_of_bytes(data) + seq![
            hex_digit_of((x >> 4) as u32),
            hex_digit_of((x & 0xf) as u32),
        ],
    decreases data,
{
    let pair = seq![hex_digit_of((x >> 4) as u32), hex_digit_of((x & 0xf) as u32)];
    if data.len() == 0 {
        assert(data.push(x)[0] == x);
        assert(data.push(x).drop_first() =~= Seq::<u8>::empty());
        assert(hex_of_bytes(data.push(x)) == pair + hex_of_bytes(Seq::<u8>::empty()));
        assert(pair + Seq::<char>::empty() =~= pair);
        assert(hex_of_bytes(data) + pair =~= pair);
    } else {
        assert(data.push(x)[0] == data[0]);
        assert(data.push(x).drop_first() =~= data.drop_first().push(x));
        lemma_hex_of_bytes_push(data.drop_first(), x);
        let head = seq![
            hex_digit_of((data[0] >> 4) as u32),
            hex_digit_of((data[0] & 0xf) as u32),
        ];
        assert(head + (hex_of_bytes(data.drop_first()) + pair) =~= (head + hex_of_bytes(
            data.drop_first(),
        )) + pair);
    }
}

proof fn lemma_hex_of_bytes_len(data: Seq<u8>)
    ensures
        hex_of_bytes(data).len() == 2 * data.len(),
    decreases data.len(),
{
    if data.len() > 0 {
        lemma_hex_of_bytes_len(data.drop_first());
    }
}

/// Lowercase hex encoding of a byte vector.
pub fn bytes_to_hex(data: &Vec<u8>) -> (r: String)
    ensures
        r@ == hex_of_bytes(data@),
{
    let n = data.len();
    let mut out = String::new();
    let mut i: usize = 0;
    proof {
        assert(data@.subrange(0, 0) =~= Seq::<u8>::empty());
    }
    while i < n
        invariant
            n == data@.len(),
            0 <= i <= n,
            out@ == hex_of_bytes(data@.subrange(0, i as int)),
        decreases n - i,
    {
        let b = data[i];
        let hi: u32 = (b >> 4) as u32;
        let lo: u32 = (b & 0xf) as u32;
        let hc: char = if hi < 10 {
            ((48 + hi) as u8) as char
        } else {
            ((87 + hi) as u8) as char
        };
        let lc: char = if lo < 10 {
            ((48 + lo) as u8) as char
        } else {
            ((87 + lo) as u8) as char
        };
        proof {
            assert(hi < 16 && lo < 16) by (bit_vector)
                requires
                    hi == (b >> 4) as u32 && lo == (b & 0xf) as u32,
            ;
        }
        crate::strutil::push_char(&mut out, hc);
        crate::strutil::push_char(&mut out, lc);
        proof {
            assert(data@.subrange(0, i + 1) =~= data@.subrange(0, i as int).push(data@[i as int]));
            lemma_hex_of_bytes_push(data@.subrange(0, i as int), data@[i as int]);
        }
        i = i + 1;
    }
    proof {
        assert(data@.subrange(0, n as int) =~= data@);
    }
    out
}

/// Lowercase hex encoding of the UTF-8 bytes of a string; names the proxy
/// port file for a workspace.
pub fn string_to_hex(s: &str) -> (r: String)
    ensures
        r@ == hex_of_bytes(s.spec_bytes()),
{
    let bytes = s.as_bytes_vec();
    bytes_to_hex(&bytes)
}

/// The SHA-1 digest of a byte string: twenty bytes determined by the input
/// alone.
pub uninterp spec fn sha1_of(data: Seq<u8>) -> Seq<u8>;

/// Relies on `sha1::Sha1::digest` (the RustCrypto one-shot API): the SHA-1
/// digest of the input, always twenty bytes long.
#[verifier::external_body]
fn sha1_digest(data: &Vec<u8>) -> (r: Vec<u8>)
    ensures
        r@ == sha1_of(data@),
        r@.len() == 20,
{
    sha1::Sha1::digest(data.as_slice()).to_vec()
}

/// Relies on `hex::encode`: lowercase hex, two digits per byte, in input
/// order.
#[verifier::external_body]
fn hex_encode(data: &Vec<u8>) -> (r: String)
    ensures
        r@ == hex_of_bytes(data@),
{
    hex::encode(data)
}

/// Lowercase hex spelling of the SHA-1 digest of `input`'s UTF-8 bytes;
/// forty characters.
pub fn get_sha1_hex(input: &str) -> (r: String)
    ensures
        r@ == hex_of_bytes(sha1_of(input.spec_bytes())),
        r@.len() == 40,
{
    let bytes = input.as_bytes_vec();
    let digest = sha1_digest(&bytes);
    let r = hex_encode(&digest);
    proof {
        lemma_hex_of_bytes_len(digest@);
    }
    r
}

} // verus!
