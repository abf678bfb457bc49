//! The keys and names by which the server is known on the network.

use crate::primitives::{law_little_endian_value_injective, little_endian_value};
use vstd::prelude::*;
use zeroize::Zeroize;

verus! {

/// The order of the group that secret scalars belong to: 2^252 +
/// 27742317777372353535851937790883648493.
pub open spec fn group_order() -> nat {
    7237005577332262213973186563042994240857116359379907606001950938285454250989nat
}

/// Whether `secret` is a secret key: a scalar below the order of the group, as 32 little-endian
/// bytes, and a nonce seed of 32 bytes.
pub open spec fn is_secret_key(secret: Seq<u8>) -> bool {
    secret.len() == 64 && little_endian_value(secret.take(32)) < group_order()
}

/// Calls `schnorrkel::SecretKey::from_bytes` and, on the key that it gives,
/// `SecretKey::to_ed25519_bytes`.
///
/// Trusted: `from_bytes` takes 64 bytes whose first half is a scalar in canonical form, and
/// `to_ed25519_bytes` gives eight times that scalar, as 32 little-endian bytes, followed by the
/// nonce seed as it is.
#[verifier::external_body]
fn ed25519_bytes(secret: &[u8]) -> (r: Option<Vec<u8>>)
    ensures
        r is Some <==> is_secret_key(secret@),
        r is Some ==> r->0@.len() == 64,
        r is Some ==> little_endian_value(r->0@.take(32)) == 8 * little_endian_value(
            secret@.take(32),
        ),
        r is Some ==> r->0@.skip(32) == secret@.skip(32),
{
    match schnorrkel::SecretKey::from_bytes(secret) {
        Ok(key) => Some(key.to_ed25519_bytes().to_vec()),
        Err(_) => None,
    }
}

/// The public half of the Ed25519 key pair with secret half `secret`, as
/// `libp2p_identity::ed25519::Keypair::from` derives it.
pub uninterp spec fn ed25519_public_key(secret: Seq<u8>) -> Seq<u8>;

/// Calls `libp2p_identity::ed25519::SecretKey::try_from_bytes`, makes a
/// `libp2p_identity::ed25519::Keypair` from the key that it gives, and takes the bytes of that.
///
/// Trusted: any 32 bytes are a secret key, and nothing else is; the bytes of the pair are those of
/// the secret key followed by the 32 bytes of the public key, which is a function of the secret
/// key alone; the bytes that were taken are overwritten with zeros. Which public key belongs to a
/// secret key is left unsaid.
#[verifier::external_body]
fn libp2p_keypair(secret: &mut Vec<u8>) -> (r: Option<Vec<u8>>)
    ensures
        r is Some <==> old(secret)@.len() == 32,
        r is Some ==> r->0@ == old(secret)@ + ed25519_public_key(old(secret)@),
        r is Some ==> r->0@.len() == 64,
        r is Some ==> final(secret)@ == Seq::new(32, |i: int| 0u8),
        r is None ==> final(secret)@ == old(secret)@,
{
    match libp2p_identity::ed25519::SecretKey::try_from_bytes(secret) {
        Ok(key) => Some(libp2p_identity::ed25519::Keypair::from(key).to_bytes().to_vec()),
        Err(_) => None,
    }
}

/// Calls `Zeroize::zeroize` of the crate `zeroize` on a vector.
///
/// Trusted: the vector is empty afterwards. That its memory is overwritten with zeros first cannot
/// be said of its contents.
#[verifier::external_body]
fn wipe(bytes: &mut Vec<u8>)
    ensures
        final(bytes)@ == Seq::<u8>::empty(),
{
    bytes.zeroize()
}

/// Whether `pair` is the key pair that belongs to `secret`: 64 bytes, of which the first half is
/// eight times the scalar of `secret` and the second half the public key for the first.
pub open spec fn is_keypair_of(secret: Seq<u8>, pair: Seq<u8>) -> bool {
    &&& pair.len() == 64
    &&& little_endian_value(pair.take(32)) == 8 * little_endian_value(secret.take(32))
    &&& pair.skip(32) == ed25519_public_key(pair.take(32))
}

/// Derives the key pair by which the server is known on the network from the farmer's secret key:
/// 64 bytes, the secret half and then the public one. The secret half is eight times the farmer's
/// secret scalar. There is a pair exactly if the bytes are a secret key.
pub fn derive_libp2p_keypair(schnorrkel_sk: &[u8]) -> (r: Option<Vec<u8>>)
    ensures
        r is Some <==> is_secret_key(schnorrkel_sk@),
        r is Some <==> schnorrkel_sk@.len() == 64 && little_endian_value(schnorrkel_sk@.take(32))
            < 7237005577332262213973186563042994240857116359379907606001950938285454250989nat,
        r is Some ==> is_keypair_of(schnorrkel_sk@, r->0@),
        r is Some ==> r->0@.len() == 64,
        r is Some ==> little_endian_value(r->0@.take(32)) == 8 * little_endian_value(
            schnorrkel_sk@.take(32),
        ),
        r is Some ==> r->0@.skip(32) == ed25519_public_key(r->0@.take(32)),
{
    let mut secret_bytes: Vec<u8> = match ed25519_bytes(schnorrkel_sk) {
        Some(bytes) => bytes,
        None => return None,
    };
    let mut secret: Vec<u8> = Vec::new();
    let mut i: usize = 0;
    while i < 32
        invariant
            i <= 32,
            secret_bytes@.len() == 64,
            secret@ == secret_bytes@.take(i as int),
        decreases 32 - i,
    {
        proof {
            assert(secret_bytes@.take(i + 1) =~= secret_bytes@.take(i as int).push(
                secret_bytes@[i as int],
            ));
        }
        secret.push(secret_bytes[i]);
        i += 1;
    }
    let ghost half = secret@;
    let keypair = libp2p_keypair(&mut secret);
    wipe(&mut secret_bytes);
    proof {
        assert(keypair->0@.take(32) =~= half);
        assert(keypair->0@.skip(32) =~= ed25519_public_key(half));
    }
    keypair
}

/// The character of a hexadecimal digit.
pub open spec fn hex_digit(d: int) -> char {
    if d < 10 {
        (48 + d) as char
    } else {
        (87 + d) as char
    }
}

/// `data` in lower-case hexadecimal: two digits for each byte, the high one first.
pub open spec fn hex_text(data: Seq<u8>) -> Seq<char> {
    Seq::new(
        2 * data.len(),
        |i: int|
            if i % 2 == 0 {
                hex_digit(data[i / 2] as int / 16)
            } else {
                hex_digit(data[i / 2] as int % 16)
            },
    )
}

/// Calls `hex::encode`.
///
/// Trusted: the result is the input in lower-case hexadecimal.
#[verifier::external_body]
fn hex_encode(data: &[u8; 32]) -> (r: String)
    ensures
        r@ == hex_text(data@),
{
    hex::encode(data)
}

/// The prefix of the network's protocols: the hash of the genesis block in hexadecimal.
pub fn protocol_prefix(genesis_hash: &[u8; 32]) -> (r: String)
    ensures
        r@ == hex_text(genesis_hash@),
        r@.len() == 64,
{
    hex_encode(genesis_hash)
}

/// Only one key pair belongs to a secret key.
pub proof fn law_key_pair_is_one(secret: Seq<u8>, a: Seq<u8>, b: Seq<u8>)
    requires
        is_keypair_of(secret, a),
        is_keypair_of(secret, b),
    ensures
        a == b,
{
    law_little_endian_value_injective(a.take(32), b.take(32));
    assert(a =~= a.take(32) + a.skip(32));
    assert(b =~= b.take(32) + b.skip(32));
}

/// Bytes can be told by their hexadecimal text, so that no two networks share a prefix.
pub proof fn law_hex_text_injective(a: Seq<u8>, b: Seq<u8>)
    requires
        hex_text(a) == hex_text(b),
    ensures
        a == b,
{
    assert(hex_text(a).len() == 2 * a.len());
    assert(hex_text(b).len() == 2 * b.len());
    assert forall|i: int| 0 <= i < a.len() implies a[i] == b[i] by {
        assert(hex_text(a)[2 * i] == hex_digit(a[i] as int / 16));
        assert(hex_text(b)[2 * i] == hex_digit(b[i] as int / 16));
        assert(hex_text(a)[2 * i + 1] == hex_digit(a[i] as int % 16));
        assert(hex_text(b)[2 * i + 1] == hex_digit(b[i] as int % 16));
    }
    assert(a =~= b);
}

/// A key pair is the secret half, eight times the scalar of the secret key, and the public key for
/// it, and nothing else; secret keys with different scalars have different pairs.
pub proof fn law_key_pairs_tell_secrets_apart(
    secret: Seq<u8>,
    other: Seq<u8>,
    pair: Seq<u8>,
)
    requires
        is_keypair_of(secret, pair),
        is_keypair_of(other, pair),
    ensures
        little_endian_value(secret.take(32)) == little_endian_value(other.take(32)),
        pair.len() == 64,
        little_endian_value(pair.take(32)) == 8 * little_endian_value(secret.take(32)),
        pair == pair.take(32) + ed25519_public_key(pair.take(32)),
{
    assert(pair =~= pair.take(32) + pair.skip(32));
}

/// Each byte is written as two lower-case hexadecimal digits, the high one first, and nothing else
/// is written.
pub proof fn law_bytes_have_two_hex_digits(data: Seq<u8>, i: int)
    requires
        0 <= i < data.len(),
    ensures
        hex_text(data).len() == 2 * data.len(),
        ({
            let high = hex_text(data)[2 * i] as int;
            let low = hex_text(data)[2 * i + 1] as int;
            let high_value = if high <= '9' as int {
                high - '0' as int
            } else {
                high - 'a' as int + 10
            };
            let low_value = if low <= '9' as int {
                low - '0' as int
            } else {
                low - 'a' as int + 10
            };
            &&& 0 <= high_value < 16
            &&& 0 <= low_value < 16
            &&& data[i] == 16 * high_value + low_value
        }),
{
    assert(hex_text(data)[2 * i] == hex_digit(data[i] as int / 16));
    assert(hex_text(data)[2 * i + 1] == hex_digit(data[i] as int % 16));
}

} // verus!
