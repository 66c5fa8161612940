//! The Diffie-Hellman key exchange that some VNC servers ask for before they let a client in.
use crate::result::FailureReason;
use crate::session::SessionError;
use crate::text::owned;
use aes::cipher::{BlockEncrypt, KeyInit};
use md5::Digest;
use vstd::arithmetic::power;
use vstd::prelude::*;

verus! {

/// The length of a key and of a block of AES-128, in bytes.
pub const AES_BLOCK: usize = 16;

/// The number of bytes that a user name, or a password, takes in the credentials.
pub const CREDENTIAL_FIELD: usize = 64;

/// The number that bytes stand for, most significant byte first.
pub open spec fn be_value(bytes: Seq<u8>) -> nat
    decreases bytes.len(),
{
    if bytes.len() == 0 {
        0
    } else {
        be_value(bytes.drop_last()) * 256 + bytes.last() as nat
    }
}

/// `base` to the power of `exponent`, modulo `modulus`.
pub open spec fn power_mod(base: nat, exponent: nat, modulus: nat) -> nat {
    (power::pow(base as int, exponent) % modulus as int) as nat
}

/// `bytes` with zeros in front, up to `length` bytes.
pub open spec fn left_padded(bytes: Seq<u8>, length: nat) -> Seq<u8> {
    Seq::new((length - bytes.len()) as nat, |i: int| 0u8) + bytes
}

/// The `length` bytes that stand for `value`, most significant byte first.
pub open spec fn be_bytes(value: nat, length: nat) -> Seq<u8>
    decreases length,
{
    if length == 0 {
        Seq::empty()
    } else {
        be_bytes(value / 256, (length - 1) as nat).push((value % 256) as u8)
    }
}

/// What the MD5 digest of `data` is.
pub uninterp spec fn md5_digest(data: Seq<u8>) -> Seq<u8>;

/// What AES-128 turns `block` into under `key`.
pub uninterp spec fn aes128_block(key: Seq<u8>, block: Seq<u8>) -> Seq<u8>;

/// The error of the `aes` crate for a key of the wrong length.
#[verifier::external_type_specification]
#[verifier::external_body]
pub struct ExInvalidLength(aes::cipher::InvalidLength);

/// `BigUint::modpow` of `num_bigint`, on numbers that `from_bytes_be` and `to_bytes_be` read and
/// write: the power modulo the modulus, in as few bytes as possible and in one byte for zero.
#[verifier::external_body]
fn mod_pow(base: &[u8], exponent: &[u8], modulus: &[u8]) -> (out: Vec<u8>)
    requires
        be_value(modulus@) != 0,
    ensures
        be_value(out@) == power_mod(be_value(base@), be_value(exponent@), be_value(modulus@)),
        out@.len() >= 1,
        out@.len() == 1 || out@[0] != 0,
{
    let modulus = num_bigint::BigUint::from_bytes_be(modulus);
    let exponent = num_bigint::BigUint::from_bytes_be(exponent);
    num_bigint::BigUint::from_bytes_be(base).modpow(&exponent, &modulus).to_bytes_be()
}

/// `Md5::digest` of `md5`: a digest of 16 bytes that depends on the data alone.
#[verifier::external_body]
fn md5(data: &[u8]) -> (out: Vec<u8>)
    ensures
        out@ == md5_digest(data@),
        out@.len() == AES_BLOCK,
{
    md5::Md5::digest(data).to_vec()
}

/// `Aes128::new_from_slice` and `encrypt_block` of `aes`: a block of 16 bytes that depends on the
/// key and the block alone. The key is refused exactly when it is not 16 bytes long.
#[verifier::external_body]
fn aes128_encrypt(key: &[u8], block: &[u8]) -> (out: Result<Vec<u8>, aes::cipher::InvalidLength>)
    requires
        block@.len() == AES_BLOCK,
    ensures
        out is Ok <==> key@.len() == AES_BLOCK,
        out matches Ok(bytes) ==> bytes@ == aes128_block(key@, block@) && bytes@.len() == AES_BLOCK,
{
    let cipher = aes::Aes128::new_from_slice(key)?;
    let mut bytes = aes::cipher::Block::<aes::Aes128>::clone_from_slice(block);
    cipher.encrypt_block(&mut bytes);
    Ok(bytes.to_vec())
}

proof fn lemma_be_value_bound(bytes: Seq<u8>)
    ensures
        be_value(bytes) < power::pow(256, bytes.len()),
    decreases bytes.len(),
{
    reveal(power::pow);
    if bytes.len() > 0 {
        lemma_be_value_bound(bytes.drop_last());
        let p = power::pow(256, bytes.drop_last().len());
        assert(power::pow(256, bytes.len()) == 256 * p);
    }
}

/// A number whose first byte is not zero is no smaller than that byte's place.
proof fn lemma_be_value_leading(bytes: Seq<u8>)
    requires
        bytes.len() > 0,
        bytes[0] != 0,
    ensures
        be_value(bytes) >= power::pow(256, (bytes.len() - 1) as nat),
    decreases bytes.len(),
{
    reveal(power::pow);
    if bytes.len() == 1 {
        assert(bytes.drop_last() =~= Seq::empty());
    } else {
        lemma_be_value_leading(bytes.drop_last());
        assert(power::pow(256, (bytes.len() - 1) as nat) == 256 * power::pow(256, (bytes.len() - 2) as nat));
    }
}

/// The shortest bytes of a number are no longer than those of a greater number.
proof fn lemma_shortest(small: Seq<u8>, large: Seq<u8>)
    requires
        be_value(small) < be_value(large),
        small.len() == 1 || (small.len() > 1 && small[0] != 0),
    ensures
        small.len() <= large.len(),
{
    if small.len() > large.len() {
        if large.len() == 0 {
            assert(false);
        }
        lemma_be_value_leading(small);
        lemma_be_value_bound(large);
        power::lemma_pow_increases(256, large.len(), (small.len() - 1) as nat);
    }
}

proof fn lemma_be_bytes(value: nat, length: nat)
    requires
        value < power::pow(256, length),
    ensures
        be_bytes(value, length).len() == length,
        be_value(be_bytes(value, length)) == value,
    decreases length,
{
    reveal(power::pow);
    if length > 0 {
        let p = power::pow(256, (length - 1) as nat);
        assert(power::pow(256, length) == 256 * p);
        lemma_be_bytes(value / 256, (length - 1) as nat);
        let head = be_bytes(value / 256, (length - 1) as nat);
        assert(be_bytes(value, length).drop_last() =~= head);
    }
}

/// Bytes are the only ones of their length that stand for their number.
proof fn lemma_be_value_determines(bytes: Seq<u8>)
    ensures
        bytes == be_bytes(be_value(bytes), bytes.len()),
    decreases bytes.len(),
{
    if bytes.len() > 0 {
        lemma_be_value_determines(bytes.drop_last());
        assert((be_value(bytes.drop_last()) * 256 + bytes.last()) / 256 == be_value(
            bytes.drop_last(),
        ));
        assert(bytes =~= bytes.drop_last().push(bytes.last()));
    } else {
        assert(bytes =~= Seq::empty());
    }
}

proof fn lemma_padding_keeps_value(zeros: nat, bytes: Seq<u8>)
    ensures
        be_value(Seq::new(zeros, |i: int| 0u8) + bytes) == be_value(bytes),
    decreases bytes.len(), zeros,
{
    let all = Seq::new(zeros, |i: int| 0u8) + bytes;
    if bytes.len() > 0 {
        lemma_padding_keeps_value(zeros, bytes.drop_last());
        assert(all.drop_last() =~= Seq::new(zeros, |i: int| 0u8) + bytes.drop_last());
    } else if zeros > 0 {
        lemma_padding_keeps_value((zeros - 1) as nat, bytes);
        assert(all.drop_last() =~= Seq::new((zeros - 1) as nat, |i: int| 0u8) + bytes);
    } else {
        assert(all =~= Seq::empty());
    }
}

/// `bytes` with zeros in front, up to `length` bytes; longer bytes are refused.
pub fn left_pad_bytes(bytes: &[u8], length: usize) -> (out: Result<Vec<u8>, SessionError>)
    ensures
        out is Ok <==> bytes@.len() <= length,
        out matches Ok(padded) ==> padded@ == left_padded(bytes@, length as nat),
        out matches Err(error) ==> error.says(
            FailureReason::DisplayStartFailed,
            "VNC Apple-DH public key exceeded the server key length"@,
        ),
{
    if bytes.len() > length {
        return Err(
            SessionError::new(
                FailureReason::DisplayStartFailed,
                owned("VNC Apple-DH public key exceeded the server key length"),
            ),
        );
    }
    let zeros: usize = length - bytes.len();
    let mut padded: Vec<u8> = Vec::new();
    let mut i: usize = 0;
    while i < zeros
        invariant
            i <= zeros,
            padded@ == Seq::new(i as nat, |k: int| 0u8),
        decreases zeros - i,
    {
        padded.push(0);
        i = i + 1;
    }
    let mut j: usize = 0;
    while j < bytes.len()
        invariant
            j <= bytes@.len(),
            padded@ == Seq::new(zeros as nat, |k: int| 0u8) + bytes@.take(j as int),
        decreases bytes@.len() - j,
    {
        padded.push(bytes[j]);
        j = j + 1;
    }
    assert(bytes@.take(bytes@.len() as int) =~= bytes@);
    Ok(padded)
}

/// What `source` leaves of `target` when it is copied over its front.
pub open spec fn copied_over(source: Seq<u8>, target: Seq<u8>) -> Seq<u8> {
    Seq::new(
        target.len(),
        |i: int|
            if i < source.len() {
                source[i]
            } else {
                target[i]
            },
    )
}

/// Copies as much of `source` over the front of `target` as fits.
pub fn copy_padded_field(source: &[u8], target: &mut [u8])
    ensures
        final(target)@ == copied_over(source@, old(target)@),
{
    let length: usize = target.len();
    let mut i: usize = 0;
    while i < length && i < source.len()
        invariant
            i <= length,
            i <= source@.len(),
            length == target@.len(),
            target@.len() == old(target)@.len(),
            forall|k: int| 0 <= k < i ==> #[trigger] target@[k] == source@[k],
            forall|k: int| i <= k < length ==> #[trigger] target@[k] == old(target)@[k],
        decreases length - i,
    {
        target[i] = source[i];
        i = i + 1;
    }
    assert(target@ =~= copied_over(source@, old(target)@));
}

/// The block of 16 bytes that holds byte `i` of `data`.
pub open spec fn block_around(data: Seq<u8>, i: int) -> Seq<u8> {
    data.subrange(i / 16 * 16, i / 16 * 16 + 16)
}

/// `data` with each whole block of 16 bytes encrypted by itself; what is left over stays.
pub open spec fn ecb_encrypted(key: Seq<u8>, data: Seq<u8>) -> Seq<u8> {
    Seq::new(
        data.len(),
        |i: int|
            if i < data.len() as int / 16 * 16 {
                aes128_block(key, block_around(data, i))[i % 16]
            } else {
                data[i]
            },
    )
}

/// Encrypts each whole block of `data` under `key`, which must be 16 bytes long.
pub fn encrypt_aes128_ecb(key: &[u8], data: &mut [u8]) -> (out: Result<(), SessionError>)
    ensures
        key@.len() == AES_BLOCK ==> out is Ok && final(data)@ == ecb_encrypted(key@, old(data)@),
        key@.len() != AES_BLOCK ==> final(data)@ == old(data)@,
        key@.len() != AES_BLOCK ==> (out matches Err(error) && error.says(
            FailureReason::InternalError,
            "Invalid Length"@,
        )),
{
    let length: usize = data.len();
    if key.len() != AES_BLOCK {
        return Err(SessionError::internal("Invalid Length"));
    }
    let mut start: usize = 0;
    while length - start >= AES_BLOCK
        invariant
            start <= length,
            start % 16 == 0,
            length == data@.len(),
            length == old(data)@.len(),
            key@.len() == AES_BLOCK,
            forall|k: int|
                0 <= k < start ==> #[trigger] data@[k] == aes128_block(
                    key@,
                    block_around(old(data)@, k),
                )[k % 16],
            forall|k: int| start <= k < length ==> #[trigger] data@[k] == old(data)@[k],
        decreases length - start,
    {
        let ghost before = data@;
        let block = vstd::slice::slice_subrange(data, start, start + AES_BLOCK);
        assert(block@ =~= old(data)@.subrange(start as int, start + 16));
        let ghost plain = block@;
        let encrypted = match aes128_encrypt(key, block) {
            Ok(bytes) => bytes,
            Err(_) => return Err(SessionError::internal("Invalid Length")),
        };
        let mut i: usize = 0;
        while i < AES_BLOCK
            invariant
                i <= AES_BLOCK,
                encrypted@.len() == AES_BLOCK,
                start + AES_BLOCK <= length,
                length == data@.len(),
                length == before.len(),
                forall|k: int| 0 <= k < start ==> #[trigger] data@[k] == before[k],
                forall|k: int|
                    start <= k < start + i ==> #[trigger] data@[k] == encrypted@[k - start],
                forall|k: int| start + i <= k < length ==> #[trigger] data@[k] == before[k],
            decreases AES_BLOCK - i,
        {
            data[start + i] = encrypted[i];
            i = i + 1;
        }
        assert forall|k: int| 0 <= k < start + 16 implies #[trigger] data@[k] == aes128_block(
            key@,
            block_around(old(data)@, k),
        )[k % 16] by {
            if k >= start {
                assert(k / 16 * 16 == start && k % 16 == k - start);
                assert(block_around(old(data)@, k) =~= plain);
            }
        }
        start = start + AES_BLOCK;
    }
    assert(length as int / 16 * 16 == start);
    assert(data@ =~= ecb_encrypted(key@, old(data)@));
    Ok(())
}

/// The bytes of a text, cut to a field of 64 bytes and filled up with zeros.
pub open spec fn credential_field(text: Seq<char>) -> Seq<u8> {
    copied_over(vstd::utf8::encode_utf8(text), Seq::new(64, |i: int| 0u8))
}

/// The answer to a server's part of the key exchange: the encrypted credentials, and the client's
/// public key in as many bytes as the modulus has.
pub open spec fn response_bytes(
    generator: nat,
    modulus: Seq<u8>,
    server_key: Seq<u8>,
    username: Seq<char>,
    password: Seq<char>,
    secret: Seq<u8>,
) -> Seq<u8> {
    let shared = power_mod(be_value(server_key), be_value(secret), be_value(modulus));
    let public = power_mod(generator, be_value(secret), be_value(modulus));
    ecb_encrypted(
        md5_digest(be_bytes(shared, modulus.len())),
        credential_field(username) + credential_field(password),
    ) + be_bytes(public, modulus.len())
}

/// The key that both ends hash: the padded power of `base`.
fn padded_power(base: &[u8], exponent: &[u8], modulus: &[u8]) -> (out: Result<Vec<u8>, SessionError>)
    requires
        be_value(modulus@) != 0,
    ensures
        out matches Ok(bytes) && bytes@ == be_bytes(
            power_mod(be_value(base@), be_value(exponent@), be_value(modulus@)),
            modulus@.len(),
        ),
{
    let power = mod_pow(base, exponent, modulus);
    proof {
        let value = pow_value(base@, exponent@);
        vstd::arithmetic::div_mod::lemma_mod_bound(value, be_value(modulus@) as int);
        lemma_shortest(power@, modulus@);
        lemma_padding_keeps_value((modulus@.len() - power@.len()) as nat, power@);
        lemma_be_value_determines(left_padded(power@, modulus@.len()));
    }
    left_pad_bytes(&power, modulus.len())
}

spec fn pow_value(base: Seq<u8>, exponent: Seq<u8>) -> int {
    power::pow(be_value(base) as int, be_value(exponent))
}

/// Whether all bytes are zero, so that they stand for the number zero.
fn is_zero(bytes: &[u8]) -> (yes: bool)
    ensures
        yes == (be_value(bytes@) == 0),
{
    let mut i: usize = 0;
    proof {
        assert(bytes@.take(0) =~= Seq::empty());
    }
    while i < bytes.len()
        invariant
            i <= bytes@.len(),
            be_value(bytes@.take(i as int)) == 0,
        decreases bytes@.len() - i,
    {
        proof {
            assert(bytes@.take(i + 1).drop_last() =~= bytes@.take(i as int));
            if bytes@[i as int] != 0 {
                lemma_nonzero_byte(bytes@, i as int);
            }
        }
        if bytes[i] != 0 {
            return false;
        }
        i = i + 1;
    }
    assert(bytes@.take(bytes@.len() as int) =~= bytes@);
    true
}

proof fn lemma_nonzero_byte(bytes: Seq<u8>, i: int)
    requires
        0 <= i < bytes.len(),
        bytes[i] != 0,
    ensures
        be_value(bytes) != 0,
    decreases bytes.len(),
{
    if i < bytes.len() - 1 {
        lemma_nonzero_byte(bytes.drop_last(), i);
    }
}

/// The answer to a server's part of the key exchange, with `secret` as the client's own secret.
pub fn vnc_apple_dh_response_with_secret(
    generator: u16,
    modulus: &[u8],
    server_key: &[u8],
    username: &str,
    password: &str,
    secret: &[u8],
) -> (out: Result<Vec<u8>, SessionError>)
    ensures
        be_value(modulus@) == 0 ==> (out matches Err(error) && error.says(
            FailureReason::DisplayStartFailed,
            "VNC Apple-DH server sent an empty modulus"@,
        )),
        be_value(modulus@) != 0 ==> (out matches Ok(bytes) && bytes@ == response_bytes(
            generator as nat,
            modulus@,
            server_key@,
            username@,
            password@,
            secret@,
        )),
{
    if is_zero(modulus) {
        return Err(
            SessionError::new(
                FailureReason::DisplayStartFailed,
                owned("VNC Apple-DH server sent an empty modulus"),
            ),
        );
    }
    let generator_bytes: Vec<u8> = vec![(generator / 256) as u8, (generator % 256) as u8];
    proof {
        assert(generator_bytes@.drop_last() =~= seq![(generator / 256) as u8]);
        assert(generator_bytes@.drop_last().drop_last() =~= Seq::empty());
        reveal_with_fuel(be_value, 3);
        assert(be_value(generator_bytes@) == generator);
    }
    let public = match padded_power(&generator_bytes, secret, modulus) {
        Ok(bytes) => bytes,
        Err(error) => return Err(error),
    };
    let shared = match padded_power(server_key, secret, modulus) {
        Ok(bytes) => bytes,
        Err(error) => return Err(error),
    };
    let digest = md5(&shared);
    let mut response = credentials(username, password);
    match encrypt_aes128_ecb(&digest, response.as_mut_slice()) {
        Ok(()) => {},
        Err(error) => return Err(error),
    }
    append(&mut response, &public);
    Ok(response)
}

/// The user name and the password, each in a field of its own.
fn credentials(username: &str, password: &str) -> (out: Vec<u8>)
    ensures
        out@ == credential_field(username@) + credential_field(password@),
{
    let mut fields: Vec<u8> = field(username);
    let second = field(password);
    append(&mut fields, &second);
    fields
}

fn field(text: &str) -> (out: Vec<u8>)
    ensures
        out@ == credential_field(text@),
{
    let mut out: Vec<u8> = Vec::new();
    let mut i: usize = 0;
    while i < CREDENTIAL_FIELD
        invariant
            i <= CREDENTIAL_FIELD,
            out@ == Seq::new(i as nat, |k: int| 0u8),
        decreases CREDENTIAL_FIELD - i,
    {
        out.push(0);
        i = i + 1;
    }
    copy_padded_field(text.as_bytes(), out.as_mut_slice());
    out
}

/// Appends `tail` to `bytes`.
pub fn append(bytes: &mut Vec<u8>, tail: &[u8])
    ensures
        final(bytes)@ == old(bytes)@ + tail@,
{
    let mut i: usize = 0;
    while i < tail.len()
        invariant
            i <= tail@.len(),
            bytes@ == old(bytes)@ + tail@.take(i as int),
        decreases tail@.len() - i,
    {
        bytes.push(tail[i]);
        i = i + 1;
    }
    assert(tail@.take(tail@.len() as int) =~= tail@);
}

/// Both ends of an exchange arrive at the same key: the client raises the server's public key to
/// its own secret, and the server raises the client's public key to the server's secret.
pub proof fn both_ends_share_a_key(generator: nat, ours: nat, theirs: nat, modulus: nat)
    requires
        modulus != 0,
    ensures
        power_mod(power_mod(generator, theirs, modulus), ours, modulus) == power_mod(
            power_mod(generator, ours, modulus),
            theirs,
            modulus,
        ),
{
    let g = generator as int;
    let m = modulus as int;
    power::lemma_pow_mod_noop(power::pow(g, theirs), ours, m);
    power::lemma_pow_mod_noop(power::pow(g, ours), theirs, m);
    power::lemma_pow_multiplies(g, theirs, ours);
    power::lemma_pow_multiplies(g, ours, theirs);
    assert(ours * theirs == theirs * ours) by (nonlinear_arith);
    vstd::arithmetic::div_mod::lemma_mod_bound(power::pow(g, theirs), m);
    vstd::arithmetic::div_mod::lemma_mod_bound(power::pow(g, ours), m);
}

/// A server that holds its secret can read the credentials: the key it hashes is the one that the
/// client hashed, whatever the client's secret was.
pub proof fn the_server_derives_the_same_digest(
    generator: nat,
    modulus: Seq<u8>,
    ours: Seq<u8>,
    theirs: nat,
)
    requires
        be_value(modulus) != 0,
    ensures
        ({
            let m = be_value(modulus);
            let server_key = be_bytes(power_mod(generator, theirs, m), modulus.len());
            let public = be_bytes(power_mod(generator, be_value(ours), m), modulus.len());
            md5_digest(be_bytes(power_mod(be_value(server_key), be_value(ours), m), modulus.len()))
                == md5_digest(be_bytes(power_mod(be_value(public), theirs, m), modulus.len()))
        }),
{
    let m = be_value(modulus);
    both_ends_share_a_key(generator, be_value(ours), theirs, m);
    lemma_be_value_bound(modulus);
    vstd::arithmetic::div_mod::lemma_mod_bound(power::pow(generator as int, theirs), m as int);
    vstd::arithmetic::div_mod::lemma_mod_bound(
        power::pow(generator as int, be_value(ours)),
        m as int,
    );
    lemma_be_bytes(power_mod(generator, theirs, m), modulus.len());
    lemma_be_bytes(power_mod(generator, be_value(ours), m), modulus.len());
}

/// The answer holds two fields of credentials and a public key as long as the modulus.
pub proof fn responses_have_a_fixed_length(
    generator: nat,
    modulus: Seq<u8>,
    server_key: Seq<u8>,
    username: Seq<char>,
    password: Seq<char>,
    secret: Seq<u8>,
)
    ensures
        response_bytes(generator, modulus, server_key, username, password, secret).len() == 2
            * CREDENTIAL_FIELD + modulus.len(),
{
    lemma_be_bytes_length(
        power_mod(generator, be_value(secret), be_value(modulus)),
        modulus.len(),
    );
}

proof fn lemma_be_bytes_length(value: nat, length: nat)
    ensures
        be_bytes(value, length).len() == length,
    decreases length,
{
    if length > 0 {
        lemma_be_bytes_length(value / 256, (length - 1) as nat);
    }
}

} // verus!
