//! Configuration values. The process environment is read by the embedding
//! application; each function here turns one raw environment value (or its
//! absence) into the setting the components are constructed with.

use vstd::prelude::*;
use vstd::string::StringSliceAdditionalSpecFns;

verus! {

/// An ASCII decimal digit.
pub open spec fn spec_is_digit(b: u8) -> bool {
    48 <= b <= 57
}

/// Every byte is an ASCII decimal digit.
pub open spec fn spec_all_digits(s: Seq<u8>) -> bool {
    forall|i: int| 0 <= i < s.len() ==> spec_is_digit(#[trigger] s[i])
}

/// The value of an all-digit byte string, most significant digit first.
pub open spec fn spec_digits_value(s: Seq<u8>) -> int
    decreases s.len(),
{
    if s.len() == 0 {
        0
    } else {
        spec_digits_value(s.drop_last()) * 10 + (s.last() - 48)
    }
}

/// What `str::parse::<u64>` accepts: an optional leading plus sign, then
/// one or more decimal digits whose value fits the type.
pub open spec fn spec_parse_u64(s: Seq<u8>) -> Option<u64> {
    let digits = if s.len() >= 1 && s[0] == 43 {
        s.drop_first()
    } else {
        s
    };
    if digits.len() == 0 || !spec_all_digits(digits) || spec_digits_value(digits)
        > u64::MAX as int {
        None
    } else {
        Some(spec_digits_value(digits) as u64)
    }
}

/// What `str::parse::<i64>` accepts: an optional sign, then one or more
/// decimal digits whose signed value fits the type.
pub open spec fn spec_parse_i64(s: Seq<u8>) -> Option<i64> {
    let negative = s.len() >= 1 && s[0] == 45;
    let digits = if s.len() >= 1 && (s[0] == 43 || s[0] == 45) {
        s.drop_first()
    } else {
        s
    };
    if digits.len() == 0 || !spec_all_digits(digits) {
        None
    } else {
        let v = spec_digits_value(digits);
        if negative {
            if v <= 9223372036854775808 {
                Some((-v) as i64)
            } else {
                None
            }
        } else {
            if v <= i64::MAX as int {
                Some(v as i64)
            } else {
                None
            }
        }
    }
}

/// An all-digit string has a non-negative value.
proof fn lemma_digits_value_nonneg(s: Seq<u8>)
    requires
        spec_all_digits(s),
    ensures
        spec_digits_value(s) >= 0,
    decreases s.len(),
{
    if s.len() > 0 {
        assert(spec_all_digits(s.drop_last())) by {
            assert(forall|i: int|
                0 <= i < s.len() - 1 ==> spec_is_digit(#[trigger] s.drop_last()[i]));
        }
        lemma_digits_value_nonneg(s.drop_last());
    }
}

/// Appending digits never shrinks an all-digit string's value.
proof fn lemma_digits_prefix_monotone(s: Seq<u8>, k: int)
    requires
        spec_all_digits(s),
        0 <= k <= s.len(),
    ensures
        spec_digits_value(s) >= spec_digits_value(s.subrange(0, k)),
    decreases s.len() - k,
{
    if k < s.len() {
        let t = s.subrange(0, k + 1);
        assert(t.drop_last() =~= s.subrange(0, k));
        assert(spec_all_digits(s.subrange(0, k))) by {
            assert(forall|i: int| 0 <= i < k ==> spec_is_digit(#[trigger] s.subrange(0, k)[i]));
        }
        lemma_digits_value_nonneg(s.subrange(0, k));
        assert(spec_is_digit(t.last())) by {
            assert(t.last() == s[k]);
        }
        assert(spec_digits_value(t) == spec_digits_value(s.subrange(0, k)) * 10 + (t.last()
            - 48));
        lemma_digits_prefix_monotone(s, k + 1);
    } else {
        assert(s.subrange(0, k) =~= s);
    }
}

/// A digit prefix already past `u64::MAX` forces the whole string out of
/// range.
proof fn lemma_digits_wont_fit(s: Seq<u8>, k: int)
    requires
        0 <= k <= s.len(),
        spec_all_digits(s.subrange(0, k)),
        spec_digits_value(s.subrange(0, k)) > u64::MAX as int,
    ensures
        !spec_all_digits(s) || spec_digits_value(s) > u64::MAX as int,
{
    if spec_all_digits(s) {
        lemma_digits_prefix_monotone(s, k);
    }
}

/// Reads the all-digit tail of `bytes` beginning at `start`.
fn parse_digits(bytes: &[u8], start: usize) -> (r: Option<u64>)
    requires
        start <= bytes@.len(),
    ensures
        ({
            let digits = bytes@.subrange(start as int, bytes@.len() as int);
            match r {
                Some(v) => digits.len() > 0 && spec_all_digits(digits) && v == spec_digits_value(
                    digits,
                ),
                None => digits.len() == 0 || !spec_all_digits(digits) || spec_digits_value(digits)
                    > u64::MAX as int,
            }
        }),
{
    let n = bytes.len();
    let ghost digits = bytes@.subrange(start as int, n as int);
    if start == n {
        return None;
    }
    let mut acc: u64 = 0;
    let mut i: usize = start;
    while i < n
        invariant
            start <= i <= n,
            n == bytes@.len(),
            digits == bytes@.subrange(start as int, n as int),
            spec_all_digits(bytes@.subrange(start as int, i as int)),
            acc == spec_digits_value(bytes@.subrange(start as int, i as int)),
        decreases n - i,
    {
        let b = bytes[i];
        if b < 48 || b > 57 {
            proof {
                assert(digits[i - start] == b);
            }
            return None;
        }
        let d: u64 = (b - 48) as u64;
        let ghost prefix = bytes@.subrange(start as int, i as int);
        let ghost extended = bytes@.subrange(start as int, i + 1);
        proof {
            assert(extended.drop_last() =~= prefix);
            assert(extended.last() == b);
            assert(spec_all_digits(extended)) by {
                assert(forall|j: int|
                    0 <= j < extended.len() - 1 ==> extended[j] == prefix[j]);
            }
            assert(spec_digits_value(extended) == acc * 10 + d);
            assert(extended =~= digits.subrange(0, i - start + 1));
        }
        let shifted = match acc.checked_mul(10) {
            Some(v) => v,
            None => {
                proof {
                    lemma_digits_wont_fit(digits, i - start + 1);
                }
                return None;
            },
        };
        let next = match shifted.checked_add(d) {
            Some(v) => v,
            None => {
                proof {
                    lemma_digits_wont_fit(digits, i - start + 1);
                }
                return None;
            },
        };
        acc = next;
        i = i + 1;
    }
    proof {
        assert(bytes@.subrange(start as int, i as int) =~= digits);
    }
    Some(acc)
}

/// Parses an unsigned decimal, exactly as the standard parser does.
pub fn parse_u64(s: &str) -> (r: Option<u64>)
    ensures
        r == spec_parse_u64(s.spec_bytes()),
{
    let bytes = s.as_bytes();
    let n = bytes.len();
    let start: usize = if n >= 1 && bytes[0] == 43 {
        1
    } else {
        0
    };
    let ghost digits = if s.spec_bytes().len() >= 1 && s.spec_bytes()[0] == 43 {
        s.spec_bytes().drop_first()
    } else {
        s.spec_bytes()
    };
    proof {
        assert(digits =~= bytes@.subrange(start as int, n as int));
    }
    parse_digits(bytes, start)
}

/// Parses a signed decimal, exactly as the standard parser does.
pub fn parse_i64(s: &str) -> (r: Option<i64>)
    ensures
        r == spec_parse_i64(s.spec_bytes()),
{
    let bytes = s.as_bytes();
    let n = bytes.len();
    let negative = n >= 1 && bytes[0] == 45;
    let start: usize = if n >= 1 && (bytes[0] == 43 || bytes[0] == 45) {
        1
    } else {
        0
    };
    let ghost digits = if s.spec_bytes().len() >= 1 && (s.spec_bytes()[0] == 43
        || s.spec_bytes()[0] == 45) {
        s.spec_bytes().drop_first()
    } else {
        s.spec_bytes()
    };
    proof {
        assert(digits =~= bytes@.subrange(start as int, n as int));
    }
    match parse_digits(bytes, start) {
        None => None,
        Some(v) => {
            if negative {
                if v <= 9223372036854775808u64 {
                    if v == 9223372036854775808u64 {
                        Some(i64::MIN)
                    } else {
                        Some(-(v as i64))
                    }
                } else {
                    None
                }
            } else {
                if v <= i64::MAX as u64 {
                    Some(v as i64)
                } else {
                    None
                }
            }
        },
    }
}

/// An ASCII hexadecimal digit.
pub open spec fn spec_is_hex_digit(b: u8) -> bool {
    (48 <= b <= 57) || (97 <= b <= 102) || (65 <= b <= 70)
}

/// A raw custodial secret with any `0x` prefix stripped.
pub open spec fn spec_hex_key_digits(s: Seq<u8>) -> Seq<u8> {
    if s.len() == 66 && s[0] == 48 && s[1] == 120 {
        s.skip(2)
    } else {
        s
    }
}

/// The shape expected of a raw custodial secret: 64 hex characters,
/// with or without a `0x` prefix.
pub open spec fn spec_is_hex_key(s: Seq<u8>) -> bool {
    spec_hex_key_digits(s).len() == 64 && forall|i: int|
        0 <= i < spec_hex_key_digits(s).len() ==> spec_is_hex_digit(
            #[trigger] spec_hex_key_digits(s)[i],
        )
}

/// Checks a raw secret's format before it is moved into protected
/// memory: 64 hex characters, with or without a `0x` prefix.
pub fn is_hex_key(s: &str) -> (r: bool)
    ensures
        r == spec_is_hex_key(s.spec_bytes()),
{
    let bytes = s.as_bytes();
    let n = bytes.len();
    let start: usize = if n == 66 && bytes[0] == 48 && bytes[1] == 120 {
        2
    } else {
        0
    };
    let ghost digits = spec_hex_key_digits(s.spec_bytes());
    proof {
        assert(digits =~= bytes@.subrange(start as int, n as int));
    }
    if n - start != 64 {
        return false;
    }
    let mut i: usize = start;
    while i < n
        invariant
            start <= i <= n,
            n == bytes@.len(),
            digits == spec_hex_key_digits(s.spec_bytes()),
            digits == bytes@.subrange(start as int, n as int),
            digits.len() == 64,
            forall|j: int| 0 <= j < i - start ==> spec_is_hex_digit(#[trigger] digits[j]),
        decreases n - i,
    {
        let b = bytes[i];
        let is_hex = (48 <= b && b <= 57) || (97 <= b && b <= 102) || (65 <= b && b <= 70);
        if !is_hex {
            proof {
                assert(digits[i - start] == b);
            }
            return false;
        }
        proof {
            assert(digits[i - start] == b);
        }
        i = i + 1;
    }
    true
}

/// The interface address to bind, defaulting to all interfaces.
pub fn hostname(value: Option<String>) -> (r: String)
    ensures
        value matches Some(v) ==> r@ == v@,
        value is None ==> r@ == "0.0.0.0"@,
{
    match value {
        Some(v) => v,
        None => String::from_str("0.0.0.0"),
    }
}

/// The port to listen on.
pub fn port(value: Option<String>) -> (r: String)
    ensures
        value matches Some(v) ==> r@ == v@,
        value is None ==> r@ == "36092"@,
{
    match value {
        Some(v) => v,
        None => String::from_str("36092"),
    }
}

/// The claim counter-signing key's raw secret; the process cannot start
/// without one.
pub fn claimerkey(value: Option<String>) -> (r: String)
    requires
        value is Some,
    ensures
        r@ == value->0@,
{
    match value {
        Some(v) => v,
        None => {
            proof {
                assert(false);
            }
            String::new()
        },
    }
}

/// The tokenized-server owner key's raw secret; required.
pub fn tokenownerkey(value: Option<String>) -> (r: String)
    requires
        value is Some,
    ensures
        r@ == value->0@,
{
    match value {
        Some(v) => v,
        None => {
            proof {
                assert(false);
            }
            String::new()
        },
    }
}

/// The token minting key's raw secret; required.
pub fn tokenminterkey(value: Option<String>) -> (r: String)
    requires
        value is Some,
    ensures
        r@ == value->0@,
{
    match value {
        Some(v) => v,
        None => {
            proof {
                assert(false);
            }
            String::new()
        },
    }
}

/// The account whose signature approves manual token grants; required.
pub fn manualtokensigner(value: Option<String>) -> (r: String)
    requires
        value is Some,
    ensures
        r@ == value->0@,
{
    match value {
        Some(v) => v,
        None => {
            proof {
                assert(false);
            }
            String::new()
        },
    }
}

/// The persistence layer's connection string.
pub fn database(value: Option<String>) -> (r: String)
    ensures
        value matches Some(v) ==> r@ == v@,
        value is None ==> r@ == "postgres:openxai-indexer?host=/run/postgresql"@,
{
    match value {
        Some(v) => v,
        None => String::from_str("postgres:openxai-indexer?host=/run/postgresql"),
    }
}

/// The subdomain reservation service's base address.
pub fn subdomaindistributor(value: Option<String>) -> (r: String)
    ensures
        value matches Some(v) ==> r@ == v@,
        value is None ==> r@ == "http://subdomain-distributor.local:42923"@,
{
    match value {
        Some(v) => v,
        None => String::from_str("http://subdomain-distributor.local:42923"),
    }
}

/// The HTTP RPC endpoint.
pub fn httprpc(value: Option<String>) -> (r: String)
    ensures
        value matches Some(v) ==> r@ == v@,
        value is None ==> r@ == "https://base-rpc.publicnode.com"@,
{
    match value {
        Some(v) => v,
        None => String::from_str("https://base-rpc.publicnode.com"),
    }
}

/// The websocket RPC endpoint the listeners subscribe through.
pub fn wsrpc(value: Option<String>) -> (r: String)
    ensures
        value matches Some(v) ==> r@ == v@,
        value is None ==> r@ == "wss://base-rpc.publicnode.com"@,
{
    match value {
        Some(v) => v,
        None => String::from_str("wss://base-rpc.publicnode.com"),
    }
}

/// The chain the claim domain is bound to; an unreadable value falls back
/// to the default chain.
pub fn chainid(value: Option<&str>) -> (r: u64)
    ensures
        ({
            match value {
                Some(v) => match spec_parse_u64(v.spec_bytes()) {
                    Some(id) => r == id,
                    None => r == 8453,
                },
                None => r == 8453,
            }
        }),
{
    match value {
        Some(v) => match parse_u64(v) {
            Some(id) => id,
            None => 8453,
        },
        None => 8453,
    }
}

/// The price of one tokenized server, in credits; an unreadable value
/// falls back to the default price.
pub fn ownaiv1price(value: Option<&str>) -> (r: i64)
    ensures
        ({
            match value {
                Some(v) => match spec_parse_i64(v.spec_bytes()) {
                    Some(p) => r == p,
                    None => r == 100_000_000,
                },
                None => r == 100_000_000,
            }
        }),
{
    match value {
        Some(v) => match parse_i64(v) {
            Some(p) => p,
            None => 100_000_000,
        },
        None => 100_000_000,
    }
}

/// The deployment provider's API key; required.
pub fn hyperstackapikey(value: Option<String>) -> (r: String)
    requires
        value is Some,
    ensures
        r@ == value->0@,
{
    match value {
        Some(v) => v,
        None => {
            proof {
                assert(false);
            }
            String::new()
        },
    }
}

} // verus!
