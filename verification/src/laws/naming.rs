//! Names and texts: numbers in decimal notation, identifiers of connections, options.
use crate::identity::{self, key_text, parse_servers, snow_public_keys_to_uuid};
use crate::options::{
    display_name, merge_configs, merge_values, needs_renewal, OptionalRunOptions, RunOptions,
    Sources, ValueSource,
};
use crate::text::{self, ends_with, push_decimal, push_labelled, starts_with};
use vstd::prelude::*;

verus! {

/// The number that a run of digits stands for.
pub open spec fn number_of(digits: Seq<char>) -> int
    decreases digits.len(),
{
    if digits.len() == 0 {
        0
    } else {
        number_of(digits.drop_last()) * 10 + (digits.last() as u32 - '0' as u32)
    }
}

/// `digits` writes `n`: digits only, with no zero in front, that stand for it.
pub open spec fn writes(digits: Seq<char>, n: int) -> bool {
    &&& digits.len() > 0
    &&& forall|i: int|
        0 <= i < digits.len() ==> '0' as u32 <= #[trigger] digits[i] as u32 <= '9' as u32
    &&& digits[0] == '0' ==> digits.len() == 1
    &&& number_of(digits) == n
}

/// A number in decimal notation stands for that number.
pub(crate) proof fn decimal_is_the_number(n: nat)
    ensures
        writes(text::decimal(n), n as int),
    decreases n,
{
    let digits = text::decimal(n);
    if n < 10 {
        assert(digits.drop_last() =~= Seq::empty());
        assert(number_of(digits.drop_last()) == 0);
    } else {
        decimal_is_the_number(n / 10);
        assert(digits.drop_last() =~= text::decimal(n / 10));
        assert forall|i: int| 0 <= i < digits.len() implies '0' as u32
            <= #[trigger] digits[i] as u32 <= '9' as u32 by {
            if i < digits.len() - 1 {
                assert(digits[i] == text::decimal(n / 10)[i]);
            }
        }
        assert(digits[0] == text::decimal(n / 10)[0]);
        if digits[0] == '0' {
            assert(text::decimal(n / 10).drop_last() =~= Seq::empty());
            assert(number_of(text::decimal(n / 10).drop_last()) == 0);
            assert(number_of(text::decimal(n / 10)) == 0);
        }
    }
}

/// A number is appended in decimal notation, behind a label where there is one; what stood there
/// stays.
pub proof fn number_is_appended(
    plain: &mut String,
    n: u64,
    marked: &mut String,
    label: &str,
    m: u64,
)
    requires
        call_ensures(push_decimal, (plain, n), ()),
        call_ensures(push_labelled, (marked, label, m), ()),
    ensures
        old(plain)@.len() < final(plain)@.len(),
        final(plain)@.take(old(plain)@.len() as int) == old(plain)@,
        writes(final(plain)@.skip(old(plain)@.len() as int), n as int),
        old(marked)@.len() + label@.len() < final(marked)@.len(),
        final(marked)@.take((old(marked)@.len() + label@.len()) as int) == old(marked)@ + label@,
        writes(final(marked)@.skip((old(marked)@.len() + label@.len()) as int), m as int),
{
    decimal_is_the_number(n as nat);
    decimal_is_the_number(m as nat);
    assert(final(plain)@.take(old(plain)@.len() as int) =~= old(plain)@);
    assert(final(plain)@.skip(old(plain)@.len() as int) =~= text::decimal(n as nat));
    assert(final(marked)@.take((old(marked)@.len() + label@.len()) as int) =~= old(marked)@
        + label@);
    assert(final(marked)@.skip((old(marked)@.len() + label@.len()) as int) =~= text::decimal(
        m as nat,
    ));
}

/// A text starts with another where all of its characters stand there, in order, and ends with its
/// last one.
pub proof fn text_starts_and_ends(
    text: &str,
    prefix: &str,
    starts: bool,
    last: char,
    ends: bool,
)
    requires
        call_ensures(starts_with, (text, prefix), starts),
        call_ensures(ends_with, (text, last), ends),
    ensures
        starts ==> prefix@.len() <= text@.len() && forall|i: int|
            0 <= i < prefix@.len() ==> text@[i] == #[trigger] prefix@[i],
        prefix@.len() <= text@.len() && (forall|i: int|
            0 <= i < prefix@.len() ==> text@[i] == #[trigger] prefix@[i]) ==> starts,
        ends <==> text@.len() > 0 && text@[text@.len() - 1] == last,
{
    if starts {
        assert forall|i: int| 0 <= i < prefix@.len() implies text@[i] == #[trigger] prefix@[i] by {
            assert(text@.take(prefix@.len() as int)[i] == prefix@[i]);
        }
    }
    if prefix@.len() <= text@.len() && (forall|i: int|
        0 <= i < prefix@.len() ==> text@[i] == #[trigger] prefix@[i]) {
        assert(text@.take(prefix@.len() as int) =~= prefix@);
    }
}

/// `a` and `b` are the same up to `i`, where `a` is over, or less.
pub open spec fn is_less_at(a: Seq<u8>, b: Seq<u8>, i: int) -> bool {
    &&& 0 <= i <= a.len() && i < b.len()
    &&& forall|k: int| 0 <= k < i ==> #[trigger] a[k] == b[k]
    &&& i == a.len() || a[i] < b[i]
}

/// `a` comes before `b`: at the first byte in which they differ it is less, or it is the beginning
/// of `b`.
pub open spec fn is_less(a: Seq<u8>, b: Seq<u8>) -> bool {
    exists|i: int| is_less_at(a, b, i)
}

/// Sixteen bytes make a number, the most significant first.
pub open spec fn makes(d: Seq<u8>, n: int) -> bool {
    let high = ((((((d[0] * 256 + d[1]) * 256 + d[2]) * 256 + d[3]) * 256 + d[4]) * 256 + d[5])
        * 256 + d[6]) * 256 + d[7];
    let low = ((((((d[8] * 256 + d[9]) * 256 + d[10]) * 256 + d[11]) * 256 + d[12]) * 256 + d[13])
        * 256 + d[14]) * 256 + d[15];
    n == high * 0x1_0000_0000_0000_0000 + low
}

/// The identifier that two keys have in common: the first sixteen bytes of the digest of both, one
/// behind the other, the lesser first. A digest has 32 bytes.
pub open spec fn is_common_id(key1: Seq<u8>, key2: Seq<u8>, id: u128) -> bool {
    let digest = identity::sha256_of(
        if is_less(key2, key1) {
            key2 + key1
        } else {
            key1 + key2
        },
    );
    digest.len() == 32 ==> makes(digest, id as int)
}

proof fn preceding_is_less(a: Seq<u8>, b: Seq<u8>)
    ensures
        identity::precedes(a, b) <==> is_less(a, b),
    decreases a.len(),
{
    if a.len() > 0 && b.len() > 0 && a[0] == b[0] {
        let (x, y) = (a.skip(1), b.skip(1));
        preceding_is_less(x, y);
        if is_less(x, y) {
            let i = choose|i: int| is_less_at(x, y, i);
            assert forall|k: int| 0 <= k < i + 1 implies #[trigger] a[k] == b[k] by {
                if k > 0 {
                    assert(x[k - 1] == y[k - 1]);
                }
            }
            assert(is_less_at(a, b, i + 1));
        }
        if is_less(a, b) {
            let i = choose|i: int| is_less_at(a, b, i);
            assert forall|k: int| 0 <= k < i - 1 implies #[trigger] x[k] == y[k] by {
                assert(a[k + 1] == b[k + 1]);
            }
            assert(is_less_at(x, y, i - 1));
        }
    } else if b.len() > 0 {
        if a.len() == 0 || a[0] < b[0] {
            assert(is_less_at(a, b, 0));
        }
        if is_less(a, b) {
            let i = choose|i: int| is_less_at(a, b, i);
            if i > 0 {
                assert(a[0] == b[0]);
            }
        }
    }
}

proof fn one_more_byte(d: Seq<u8>, k: int)
    requires
        0 <= k < d.len(),
    ensures
        identity::be_value(d.take(k + 1)) == identity::be_value(d.take(k)) * 256 + d[k],
{
    assert(d.take(k + 1).drop_last() =~= d.take(k));
}

proof fn sixteen_bytes_make_a_number(d: Seq<u8>)
    requires
        d.len() >= 16,
    ensures
        makes(d, identity::be_value(d.take(16)) as int),
        identity::be_value(d.take(16)) <= u128::MAX,
{
    assert(d.take(0) =~= Seq::empty());
    assert(identity::be_value(d.take(0)) == 0);
    one_more_byte(d, 0);
    one_more_byte(d, 1);
    one_more_byte(d, 2);
    one_more_byte(d, 3);
    one_more_byte(d, 4);
    one_more_byte(d, 5);
    one_more_byte(d, 6);
    one_more_byte(d, 7);
    one_more_byte(d, 8);
    one_more_byte(d, 9);
    one_more_byte(d, 10);
    one_more_byte(d, 11);
    one_more_byte(d, 12);
    one_more_byte(d, 13);
    one_more_byte(d, 14);
    one_more_byte(d, 15);
}

/// What two keys have in common is made of their digest.
pub(crate) proof fn common_id_is_made_of_the_digest(key1: Seq<u8>, key2: Seq<u8>)
    ensures
        is_common_id(key1, key2, identity::common_id(key1, key2) as u128),
{
    preceding_is_less(key2, key1);
    let digest = identity::sha256_of(
        if is_less(key2, key1) {
            key2 + key1
        } else {
            key1 + key2
        },
    );
    if digest.len() == 32 {
        sixteen_bytes_make_a_number(digest);
    }
}

/// Two keys have one identifier, whoever asks, and it is made of their digest.
pub proof fn both_ends_find_the_same_identifier(key1: &str, key2: &str, here: u128, there: u128)
    requires
        call_ensures(snow_public_keys_to_uuid, (key1, key2), here),
        call_ensures(snow_public_keys_to_uuid, (key2, key1), there),
    ensures
        here == there,
        is_common_id(vstd::utf8::encode_utf8(key1@), vstd::utf8::encode_utf8(key2@), here),
{
    let (a, b) = (vstd::utf8::encode_utf8(key1@), vstd::utf8::encode_utf8(key2@));
    identity::common_id_is_common(a, b);
    common_id_is_made_of_the_digest(a, b);
}

/// A key is shown in base64. Addresses of servers are read one by one, each in its place, or not
/// at all where one is none.
pub proof fn keys_and_servers_are_read_whole(
    key: &[u8],
    shown: String,
    servers: Vec<String>,
    urls: Option<Vec<String>>,
)
    requires
        call_ensures(key_text, (key,), shown),
        call_ensures(parse_servers, (&servers,), urls),
    ensures
        shown@ == identity::base64_url(key@),
        urls is Some <==> forall|i: int|
            0 <= i < servers@.len() ==> identity::url_parsed((#[trigger] servers@[i])@) is Some,
        urls matches Some(urls) ==> urls@.len() == servers@.len() && forall|i: int|
            0 <= i < servers@.len() ==> identity::url_parsed((#[trigger] servers@[i])@) == Some(
                urls@[i]@,
            ),
{
}

/// Whether a value was given by the user, and did not just come by default.
pub open spec fn is_given(source: Option<ValueSource>) -> bool {
    source matches Some(source) && (source is CommandLine || source is EnvVariable)
}

/// What a user has given counts; else what the file says, if it says anything.
pub open spec fn counts<T>(
    first: T,
    second: Option<T>,
    source: Option<ValueSource>,
    value: T,
) -> bool {
    &&& is_given(source) || second is None ==> value == first
    &&& !is_given(source) && second is Some ==> value == second->0
}

/// A value that a user has given is never overruled, and any other is by the file.
pub proof fn given_value_counts<T>(
    first: T,
    second: Option<T>,
    source: Option<ValueSource>,
    value: T,
)
    requires
        call_ensures(merge_values::<T>, (first, second, source), value),
    ensures
        counts(first, second, source, value),
{
}

/// Each option is settled by itself.
pub proof fn each_option_counts_by_itself(
    first: RunOptions,
    second: OptionalRunOptions,
    sources: Sources,
    options: RunOptions,
    default: OptionalRunOptions,
)
    requires
        call_ensures(merge_configs, (first, second, sources), options),
        call_ensures(<OptionalRunOptions as Default>::default, (), default),
    ensures
        counts(first.port, second.port, sources.port, options.port),
        counts(first.no_tui, second.no_tui, sources.no_tui, options.no_tui),
        counts(first.bridge, second.bridge, sources.bridge, options.bridge),
        counts(first.room, second.room, sources.room, options.room),
        counts(first.ip_version, second.ip_version, sources.ip_version, options.ip_version),
        default.port is None && default.no_tui is None && default.bridge is None
            && default.room is None && default.ip_version is None,
{
}

/// Data are kept exactly where they are marked as of this version. A user is shown by name, with
/// the machine in brackets behind it.
pub proof fn data_of_this_version_are_kept(
    version: Option<String>,
    renew: bool,
    realname: String,
    hostname: Option<String>,
    name: String,
)
    requires
        call_ensures(needs_renewal, (version,), renew),
        call_ensures(display_name, (realname, hostname), name),
    ensures
        !renew <==> version is Some && version->0@ == "1"@,
        hostname matches Some(host) ==> name@ == realname@ + seq![' ', '['] + host@ + seq![']'],
        hostname is None ==> name@ == realname@ + seq![' ', '['] + "unknown"@ + seq![']'],
{
    reveal_strlit(" [");
    reveal_strlit("]");
    assert(" ["@ =~= seq![' ', '[']);
    assert("]"@ =~= seq![']']);
}

} // verus!
