//! Deterministic keys for chain states and contract artifacts.
use sha3::{Digest, Sha3_256};
use vstd::prelude::*;
use vstd::string::StrSliceExecFns;
use vstd::utf8::encode_utf8;

verus! {

/// A 256-bit block hash, as its raw bytes.
#[derive(Clone, Copy, Debug)]
pub struct H256 {
    pub bytes: [u8; 32],
}

/// A 160-bit account address, as its raw bytes.
#[derive(Clone, Copy, Debug)]
pub struct Address {
    pub bytes: [u8; 20],
}

/// The SHA3-256 digest of a byte sequence.
pub uninterp spec fn sha3_256_of(data: Seq<u8>) -> Seq<u8>;

/// Relies on `sha3::Sha3_256::digest`: the SHA3-256 digest of `data`, which is
/// always 32 bytes long.
#[verifier::external_body]
fn sha3_256(data: &[u8]) -> (r: Vec<u8>)
    ensures
        r@ == sha3_256_of(data@),
        r@.len() == 32,
{
    Sha3_256::digest(data).to_vec()
}

/// The lowercase hexadecimal digits, by value.
pub open spec fn hex_digits() -> Seq<char> {
    seq!['0', '1', '2', '3', '4', '5', '6', '7', '8', '9', 'a', 'b', 'c', 'd', 'e', 'f']
}

/// Two lowercase hexadecimal digits for each byte, most significant first.
pub open spec fn hex_of(bytes: Seq<u8>) -> Seq<char>
    decreases bytes.len(),
{
    if bytes.len() == 0 {
        Seq::empty()
    } else {
        let b = bytes.last() as int;
        hex_of(bytes.drop_last()) + seq![hex_digits()[b / 16], hex_digits()[b % 16]]
    }
}

/// The text of a key: `0x` followed by the digest in lowercase hexadecimal.
pub open spec fn key_text(digest: Seq<u8>) -> Seq<char> {
    seq!['0', 'x'] + hex_of(digest)
}

/// The characters of all arguments, concatenated with no separator.
pub open spec fn joined(args: Seq<String>) -> Seq<char>
    decreases args.len(),
{
    if args.len() == 0 {
        Seq::empty()
    } else {
        joined(args.drop_last()) + args.last()@
    }
}

/// A key's shape: `0x` and then 64 lowercase hexadecimal digits.
pub open spec fn is_key_shaped(key: Seq<char>) -> bool {
    &&& key.len() == 66
    &&& key[0] == '0'
    &&& key[1] == 'x'
    &&& forall|i: int| 2 <= i < key.len() ==> hex_digits().contains(#[trigger] key[i])
}

/// Hexadecimal writing gives two digits per byte, each a lowercase
/// hexadecimal digit.
pub proof fn lemma_hex_of_shape(bytes: Seq<u8>)
    ensures
        hex_of(bytes).len() == 2 * bytes.len(),
        forall|i: int| 0 <= i < hex_of(bytes).len() ==> hex_digits().contains(#[trigger] hex_of(bytes)[i]),
    decreases bytes.len(),
{
    if bytes.len() > 0 {
        let b = bytes.last() as int;
        let front = hex_of(bytes.drop_last());
        lemma_hex_of_shape(bytes.drop_last());
        assert(hex_digits().len() == 16);
        assert(hex_digits().contains(hex_digits()[b / 16]));
        assert(hex_digits().contains(hex_digits()[b % 16]));
        assert forall|i: int| 0 <= i < hex_of(bytes).len() implies hex_digits().contains(
            #[trigger] hex_of(bytes)[i],
        ) by {
            if i < front.len() {
                assert(hex_of(bytes)[i] == front[i]);
            }
        }
    }
}

/// Every key made from a 32-byte digest has the shape of a key.
pub proof fn lemma_key_text_shape(digest: Seq<u8>)
    requires
        digest.len() == 32,
    ensures
        is_key_shaped(key_text(digest)),
{
    lemma_hex_of_shape(digest);
    let k = key_text(digest);
    assert forall|i: int| 2 <= i < k.len() implies hex_digits().contains(#[trigger] k[i]) by {
        assert(k[i] == hex_of(digest)[i - 2]);
    }
}

/// The key of the chain state identified by a block hash.
pub open spec fn chain_key(block_hash: Seq<u8>) -> Seq<char> {
    key_text(sha3_256_of(block_hash))
}

/// The key of a contract artifact: the digest of its name, its byte code and
/// its joined constructor arguments, in that order and with no separators.
pub open spec fn contract_key(name: Seq<char>, byte_code: Seq<char>, args: Seq<String>) -> Seq<
    char,
> {
    key_text(
        sha3_256_of(encode_utf8(name) + encode_utf8(byte_code) + encode_utf8(joined(args))),
    )
}

/// The one-character text of a hexadecimal digit.
fn hex_digit(n: u8) -> (r: &'static str)
    requires
        n < 16,
    ensures
        r@ == seq![hex_digits()[n as int]],
{
    let digits = "0123456789abcdef";
    proof {
        reveal_strlit("0123456789abcdef");
        assert(digits@ =~= hex_digits());
    }
    let r = digits.substring_char(n as usize, n as usize + 1);
    assert(r@ =~= seq![hex_digits()[n as int]]);
    r
}

/// Writes a digest as a key: `0x` and two lowercase hexadecimal digits per byte.
fn to_key_text(digest: &Vec<u8>) -> (r: String)
    ensures
        r@ == key_text(digest@),
{
    let mut r = String::new();
    r.append("0x");
    proof {
        reveal_strlit("0x");
    }
    let mut i: usize = 0;
    while i < digest.len()
        invariant
            i <= digest@.len(),
            r@ == seq!['0', 'x'] + hex_of(digest@.subrange(0, i as int)),
        decreases digest@.len() - i,
    {
        let b = digest[i];
        r.append(hex_digit(b / 16));
        r.append(hex_digit(b % 16));
        proof {
            let s = digest@.subrange(0, i + 1);
            assert(s.drop_last() =~= digest@.subrange(0, i as int));
            assert(s.last() == b);
        }
        i = i + 1;
    }
    assert(digest@.subrange(0, i as int) =~= digest@);
    r
}

/// The key of the chain state that `block_hash` identifies: the SHA3-256
/// digest of its bytes, written as `0x` and lowercase hexadecimal.
pub fn create_block_hash(block_hash: &H256) -> (r: String)
    ensures
        r@ == chain_key(block_hash.bytes@),
        is_key_shaped(r@),
{
    let digest = sha3_256(block_hash.bytes.as_slice());
    proof {
        lemma_key_text_shape(digest@);
    }
    to_key_text(&digest)
}

/// The key of a contract artifact: the SHA3-256 digest of the bytes of
/// `name`, then `byte_code`, then all `args` joined with no separator,
/// written as `0x` and lowercase hexadecimal.
pub fn create_smart_contract_hash(name: &str, byte_code: &str, args: &Vec<String>) -> (r: String)
    ensures
        r@ == contract_key(name@, byte_code@, args@),
        is_key_shaped(r@),
{
    let mut all_args = String::new();
    let mut i: usize = 0;
    while i < args.len()
        invariant
            i <= args@.len(),
            all_args@ == joined(args@.subrange(0, i as int)),
        decreases args@.len() - i,
    {
        all_args.append(args[i].as_str());
        proof {
            let s = args@.subrange(0, i + 1);
            assert(s.drop_last() =~= args@.subrange(0, i as int));
        }
        i = i + 1;
    }
    assert(args@.subrange(0, i as int) =~= args@);
    let mut data = name.as_bytes_vec();
    let mut rest = byte_code.as_bytes_vec();
    data.append(&mut rest);
    let mut tail = all_args.as_str().as_bytes_vec();
    data.append(&mut tail);
    let digest = sha3_256(data.as_slice());
    proof {
        lemma_key_text_shape(digest@);
    }
    to_key_text(&digest)
}

/// Keys depend on their inputs alone: equal inputs give equal keys, on every
/// call.
pub proof fn lemma_keys_deterministic(
    h1: H256,
    h2: H256,
    name1: Seq<char>,
    name2: Seq<char>,
    code1: Seq<char>,
    code2: Seq<char>,
    args1: Seq<String>,
    args2: Seq<String>,
)
    requires
        h1.bytes@ == h2.bytes@,
    ensures
        chain_key(h1.bytes@) == chain_key(h2.bytes@),
        name1 == name2 && code1 == code2 && joined(args1) == joined(args2) ==> contract_key(
            name1,
            code1,
            args1,
        ) == contract_key(name2, code2, args2),
{
}

} // verus!
