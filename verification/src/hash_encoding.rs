//! Block hashes in their textual form: base58 with a four-byte double-SHA-256 checksum
//! ("base58check") over the block-hash prefix followed by the hash bytes.

use vstd::prelude::*;

verus! {

/// Length in bytes of a block hash.
pub const BLOCK_HASH_SIZE: usize = 32;

/// The bytes put in front of a block hash before it is encoded (they make its text
/// start with "B").
pub open spec fn block_hash_prefix() -> Seq<u8> {
    seq![1u8, 52u8]
}

/// The base58check text of `data` (bs58 with its checksum option).
pub uninterp spec fn spec_b58check_encode(data: Seq<u8>) -> Seq<char>;

/// The bytes that the base58check text `s` stands for, when its characters and its
/// checksum are valid.
pub uninterp spec fn spec_b58check_decode(s: Seq<char>) -> Option<Seq<u8>>;

#[verifier::external_type_specification]
#[verifier::external_body]
pub struct ExDecodeError(bs58::decode::Error);

/// Calls `bs58::encode(data).with_check().into_string()`: the base58 text of `data`
/// followed by the first four bytes of its double SHA-256. Claims that the result is the
/// named encoding of `data`, and that decoding it with `bs58::decode(..).with_check(None)`
/// gives `data` back (the decoder recomputes and strips exactly that checksum).
#[verifier::external_body]
fn b58check_encode(data: &[u8]) -> (s: String)
    ensures
        s@ == spec_b58check_encode(data@),
        spec_b58check_decode(s@) == Some(data@),
{
    bs58::encode(data).with_check().into_string()
}

/// Calls `bs58::decode(s).with_check(None).into_vec()`, which decodes the base58 text
/// and checks and strips its four-byte checksum. Claims that it succeeds exactly when the
/// named decoding exists, and then returns it.
#[verifier::external_body]
fn b58check_decode(s: &str) -> (r: Result<Vec<u8>, bs58::decode::Error>)
    ensures
        r is Ok <==> spec_b58check_decode(s@) is Some,
        r matches Ok(v) ==> spec_b58check_decode(s@) == Some(v@),
{
    bs58::decode(s).with_check(None).into_vec()
}

/// The hash a block-hash text stands for: its decoded bytes must be the block-hash
/// prefix followed by exactly [`BLOCK_HASH_SIZE`] bytes.
pub open spec fn decoded_block_hash(s: Seq<char>) -> Option<Seq<u8>> {
    match spec_b58check_decode(s) {
        Some(d) => block_hash_of_bytes(d),
        None => None,
    }
}

/// The hash that decoded bytes stand for: they must be the block-hash prefix followed by
/// exactly [`BLOCK_HASH_SIZE`] bytes, which are the hash.
pub open spec fn block_hash_of_bytes(d: Seq<u8>) -> Option<Seq<u8>> {
    if d.len() == BLOCK_HASH_SIZE + 2 && d.take(2) == block_hash_prefix() {
        Some(d.skip(2))
    } else {
        None
    }
}

/// Why a text is not a block hash.
pub enum HashDecodeError {
    /// Not base58, or its checksum does not match.
    InvalidBase58Check,
    /// Valid base58check, but not the block-hash prefix followed by a hash of the
    /// block-hash size.
    NotABlockHash,
}

/// The text of a block hash.
pub fn block_hash_to_b58(hash: &[u8]) -> (s: String)
    ensures
        s@ == spec_b58check_encode(block_hash_prefix() + hash@),
        hash@.len() == BLOCK_HASH_SIZE ==> decoded_block_hash(s@) == Some(hash@),
{
    let mut data: Vec<u8> = Vec::new();
    data.push(1u8);
    data.push(52u8);
    let mut i: usize = 0;
    while i < hash.len()
        invariant
            i <= hash@.len(),
            data@ == block_hash_prefix() + hash@.take(i as int),
        decreases hash@.len() - i,
    {
        data.push(hash[i]);
        i = i + 1;
        assert(data@ =~= block_hash_prefix() + hash@.take(i as int));
    }
    assert(hash@.take(hash@.len() as int) =~= hash@);
    let s = b58check_encode(data.as_slice());
    proof {
        let d = block_hash_prefix() + hash@;
        assert(d.take(2) =~= block_hash_prefix());
        assert(d.skip(2) =~= hash@);
    }
    s
}

/// The hash a block-hash text stands for.
pub fn block_hash_from_b58(s: &str) -> (r: Result<Vec<u8>, HashDecodeError>)
    ensures
        r matches Ok(h) ==> decoded_block_hash(s@) == Some(h@),
        r is Ok <==> decoded_block_hash(s@) is Some,
        r matches Err(HashDecodeError::InvalidBase58Check) <==> spec_b58check_decode(s@) is None,
{
    let d = match b58check_decode(s) {
        Ok(d) => d,
        Err(_) => return Err(HashDecodeError::InvalidBase58Check),
    };
    match block_hash_from_bytes(d.as_slice()) {
        Some(h) => Ok(h),
        None => Err(HashDecodeError::NotABlockHash),
    }
}

/// The hash that decoded block-hash bytes stand for: the bytes after the block-hash
/// prefix, when the prefix is there and exactly [`BLOCK_HASH_SIZE`] bytes follow it.
pub fn block_hash_from_bytes(d: &[u8]) -> (r: Option<Vec<u8>>)
    ensures
        r is Some <==> block_hash_of_bytes(d@) is Some,
        r matches Some(h) ==> block_hash_of_bytes(d@) == Some(h@),
{
    if d.len() != BLOCK_HASH_SIZE + 2 || d[0] != 1u8 || d[1] != 52u8 {
        proof {
            if d@.len() == BLOCK_HASH_SIZE + 2 && d@.take(2) == block_hash_prefix() {
                assert(d@.take(2)[0] == d@[0]);
                assert(d@.take(2)[1] == d@[1]);
            }
        }
        return None;
    }
    let mut h: Vec<u8> = Vec::new();
    let mut i: usize = 2;
    while i < d.len()
        invariant
            2 <= i <= d@.len(),
            h@ == d@.subrange(2, i as int),
        decreases d@.len() - i,
    {
        h.push(d[i]);
        i = i + 1;
        assert(h@ =~= d@.subrange(2, i as int));
    }
    proof {
        assert(d@.take(2) =~= block_hash_prefix());
        assert(h@ =~= d@.skip(2));
    }
    Some(h)
}

} // verus!
