//! Names of peers and servers.
use base64::Engine;
use sha2::Digest;
use std::str::FromStr;
use vstd::prelude::*;

verus! {

/// The SHA-256 digest of some bytes.
pub uninterp spec fn sha256_of(data: Seq<u8>) -> Seq<u8>;

/// What a text stands for as an identifier, if it does.
pub uninterp spec fn uuid_parsed(text: Seq<char>) -> Option<u128>;

/// The text of an identifier.
pub uninterp spec fn uuid_shown(id: u128) -> Seq<char>;

/// Bytes in the alphabet that is safe in addresses.
pub uninterp spec fn base64_url(bytes: Seq<u8>) -> Seq<char>;

/// What a text stands for as an address, if it does: the address in its usual form.
pub uninterp spec fn url_parsed(text: Seq<char>) -> Option<Seq<char>>;

/// Trusted: `Sha256::update` takes in bytes one run after the other, and `Sha256::finalize` gives
/// the digest of all of them, which has 32 bytes.
#[verifier::external_body]
fn sha256(first: &[u8], second: &[u8]) -> (digest: Vec<u8>)
    ensures
        digest@ == sha256_of(first@ + second@),
        digest@.len() == 32,
{
    let mut hasher = sha2::Sha256::new();
    hasher.update(first);
    hasher.update(second);
    hasher.finalize().to_vec()
}

/// Trusted: `Uuid::from_str` reads an identifier in any of its usual forms; `Uuid::as_u128` is its
/// value.
#[verifier::external_body]
pub(crate) fn parse_uuid(text: &str) -> (id: Option<u128>)
    ensures
        id == uuid_parsed(text@),
{
    match uuid::Uuid::from_str(text) {
        Ok(id) => Some(id.as_u128()),
        Err(_) => None,
    }
}

/// Trusted: `Uuid` is displayed in its hyphenated form, which `Uuid::from_str` reads back.
#[verifier::external_body]
pub(crate) fn show_uuid(id: u128) -> (text: String)
    ensures
        text@ == uuid_shown(id),
        uuid_parsed(text@) == Some(id),
{
    uuid::Uuid::from_u128(id).to_string()
}

/// Trusted: `BASE64_URL_SAFE.encode` writes bytes in the address-safe alphabet, with padding. It
/// panics where the text would be longer than memory can hold.
#[verifier::external_body]
fn encode_base64(bytes: &[u8]) -> (text: String)
    requires
        4 * ((bytes@.len() + 2) / 3) <= isize::MAX,
    ensures
        text@ == base64_url(bytes@),
{
    base64::prelude::BASE64_URL_SAFE.encode(bytes)
}

/// Trusted: `Url::parse` reads an address; its text is the address in its usual form.
#[verifier::external_body]
fn parse_url(text: &str) -> (url: Option<String>)
    ensures
        match url {
            Some(url) => url_parsed(text@) == Some(url@),
            None => url_parsed(text@) is None,
        },
{
    match url::Url::parse(text) {
        Ok(url) => Some(String::from(url)),
        Err(_) => None,
    }
}

/// Whether `a` comes before `b` in the order of bytes, a shorter run first.
pub open spec fn precedes(a: Seq<u8>, b: Seq<u8>) -> bool
    decreases a.len(),
{
    if b.len() == 0 {
        false
    } else if a.len() == 0 {
        true
    } else if a[0] != b[0] {
        a[0] < b[0]
    } else {
        precedes(a.skip(1), b.skip(1))
    }
}

proof fn precedes_is_a_total_order(a: Seq<u8>, b: Seq<u8>)
    ensures
        !(precedes(a, b) && precedes(b, a)),
        precedes(a, b) || precedes(b, a) || a =~= b,
    decreases a.len(),
{
    if a.len() > 0 && b.len() > 0 && a[0] == b[0] {
        precedes_is_a_total_order(a.skip(1), b.skip(1));
        if a.skip(1) =~= b.skip(1) {
            assert(a =~= b) by {
                assert(a.len() == b.len());
                assert forall|i: int| 0 <= i < a.len() implies a[i] == b[i] by {
                    if i > 0 {
                        assert(a.skip(1)[i - 1] == b.skip(1)[i - 1]);
                    }
                }
            }
        }
    }
}

fn comes_before(a: &[u8], b: &[u8]) -> (before: bool)
    ensures
        before == precedes(a@, b@),
{
    let mut i: usize = 0;
    proof {
        assert(a@.skip(0) =~= a@);
        assert(b@.skip(0) =~= b@);
    }
    while i < a.len() && i < b.len()
        invariant
            i <= a@.len(),
            i <= b@.len(),
            precedes(a@, b@) == precedes(a@.skip(i as int), b@.skip(i as int)),
        decreases a@.len() - i,
    {
        if a[i] != b[i] {
            return a[i] < b[i];
        }
        proof {
            assert(a@.skip(i as int).skip(1) =~= a@.skip(i + 1));
            assert(b@.skip(i as int).skip(1) =~= b@.skip(i + 1));
        }
        i += 1;
    }
    i < b.len()
}

/// The number that bytes stand for, most significant first.
pub open spec fn be_value(bytes: Seq<u8>) -> nat
    decreases bytes.len(),
{
    if bytes.len() == 0 {
        0
    } else {
        be_value(bytes.drop_last()) * 256 + bytes.last() as nat
    }
}

proof fn be_value_fits(bytes: Seq<u8>)
    requires
        bytes.len() <= 16,
    ensures
        be_value(bytes) < pow256(bytes.len()),
    decreases bytes.len(),
{
    if bytes.len() > 0 {
        be_value_fits(bytes.drop_last());
    }
}

/// 256 to a power.
spec fn pow256(n: nat) -> nat
    decreases n,
{
    if n == 0 {
        1
    } else {
        pow256((n - 1) as nat) * 256
    }
}

proof fn sixteen_bytes_are_a_u128()
    ensures
        pow256(16) == 0x1_0000_0000_0000_0000_0000_0000_0000_0000,
        forall|n: nat| n <= 16 ==> #[trigger] pow256(n) <= pow256(16),
{
    reveal_with_fuel(pow256, 17);
    assert forall|n: nat| n <= 16 implies #[trigger] pow256(n) <= pow256(16) by {
        pow256_grows(n, 16);
    }
}

proof fn pow256_grows(n: nat, m: nat)
    requires
        n <= m,
    ensures
        pow256(n) <= pow256(m),
    decreases m,
{
    if n < m {
        pow256_grows(n, (m - 1) as nat);
    }
}

fn first_sixteen(bytes: &Vec<u8>) -> (value: u128)
    requires
        bytes@.len() >= 16,
    ensures
        value == be_value(bytes@.take(16)),
{
    let mut value: u128 = 0;
    let mut i: usize = 0;
    proof {
        sixteen_bytes_are_a_u128();
        assert(bytes@.take(0) =~= Seq::<u8>::empty());
    }
    while i < 16
        invariant
            i <= 16 <= bytes@.len(),
            value == be_value(bytes@.take(i as int)),
        decreases 16 - i,
    {
        proof {
            sixteen_bytes_are_a_u128();
            let more = bytes@.take(i + 1);
            assert(more.drop_last() =~= bytes@.take(i as int));
            be_value_fits(more);
            assert(pow256((i + 1) as nat) <= pow256(16));
        }
        value = value * 256 + bytes[i] as u128;
        i += 1;
    }
    value
}

/// What two keys have in common: a number made from the digest of both, the lesser first.
pub open spec fn common_id(key1: Seq<u8>, key2: Seq<u8>) -> nat {
    be_value(
        sha256_of(
            if precedes(key2, key1) {
                key2 + key1
            } else {
                key1 + key2
            },
        ).take(16),
    )
}

/// The identifier of the connection between the holders of two public keys, given in base64.
pub fn snow_public_keys_to_uuid(key1: &str, key2: &str) -> (id: u128)
    ensures
        id == common_id(vstd::utf8::encode_utf8(key1@), vstd::utf8::encode_utf8(key2@)),
{
    let bytes1: &[u8] = key1.as_bytes();
    let bytes2: &[u8] = key2.as_bytes();
    let digest: Vec<u8> = if comes_before(bytes2, bytes1) {
        sha256(bytes2, bytes1)
    } else {
        sha256(bytes1, bytes2)
    };
    first_sixteen(&digest)
}

/// Both ends of a connection find the same identifier for it.
pub proof fn common_id_is_common(key1: Seq<u8>, key2: Seq<u8>)
    ensures
        common_id(key1, key2) == common_id(key2, key1),
{
    precedes_is_a_total_order(key1, key2);
}

/// A key as it is shown to the user.
pub fn key_text(key: &[u8]) -> (text: String)
    requires
        4 * ((key@.len() + 2) / 3) <= isize::MAX,
    ensures
        text@ == base64_url(key@),
{
    encode_base64(key)
}

/// The addresses of servers, in their usual form; `None` as soon as one is no address.
pub fn parse_servers(servers: &Vec<String>) -> (urls: Option<Vec<String>>)
    ensures
        match urls {
            Some(urls) => urls@.len() == servers@.len() && forall|i: int|
                0 <= i < servers@.len() ==> url_parsed((#[trigger] servers@[i])@) == Some(
                    urls@[i]@,
                ),
            None => exists|i: int|
                0 <= i < servers@.len() && url_parsed((#[trigger] servers@[i])@) is None,
        },
{
    let mut urls: Vec<String> = Vec::new();
    let mut i: usize = 0;
    while i < servers.len()
        invariant
            i <= servers@.len(),
            urls@.len() == i,
            forall|k: int|
                0 <= k < i ==> url_parsed((#[trigger] servers@[k])@) == Some(urls@[k]@),
        decreases servers@.len() - i,
    {
        match parse_url(servers[i].as_str()) {
            Some(url) => {
                urls.push(url);
            },
            None => {
                proof {
                    assert(url_parsed(servers@[i as int]@) is None);
                }
                return None;
            },
        }
        i += 1;
    }
    Some(urls)
}

} // verus!
