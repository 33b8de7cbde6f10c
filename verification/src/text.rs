//! Verified text building: decimal rendering and the fixed description
//! strings that ledger rows carry.

use vstd::prelude::*;

verus! {

/// The decimal digit character for a value in [0, 9].
pub open spec fn spec_digit_char(d: int) -> char {
    if d == 0 {
        '0'
    } else if d == 1 {
        '1'
    } else if d == 2 {
        '2'
    } else if d == 3 {
        '3'
    } else if d == 4 {
        '4'
    } else if d == 5 {
        '5'
    } else if d == 6 {
        '6'
    } else if d == 7 {
        '7'
    } else if d == 8 {
        '8'
    } else {
        '9'
    }
}

/// The decimal rendering of a non-negative value, most significant digit
/// first, with no leading zeros (a single zero for 0).
pub open spec fn spec_u64_string(n: int) -> Seq<char>
    decreases n,
{
    if n < 10 {
        seq![spec_digit_char(n)]
    } else {
        spec_u64_string(n / 10).push(spec_digit_char(n % 10))
    }
}

/// The decimal rendering of a signed value: a minus sign before the digits
/// of its magnitude when negative.
pub open spec fn spec_i64_string(n: int) -> Seq<char> {
    if n < 0 {
        seq!['-'] + spec_u64_string(-n)
    } else {
        spec_u64_string(n)
    }
}

/// One decimal digit as a string slice.
fn digit_str(d: u64) -> (r: &'static str)
    requires
        d < 10,
    ensures
        r@ == seq![spec_digit_char(d as int)],
{
    proof {
        reveal_strlit("0");
        reveal_strlit("1");
        reveal_strlit("2");
        reveal_strlit("3");
        reveal_strlit("4");
        reveal_strlit("5");
        reveal_strlit("6");
        reveal_strlit("7");
        reveal_strlit("8");
        reveal_strlit("9");
    }
    let r = match d {
        0 => "0",
        1 => "1",
        2 => "2",
        3 => "3",
        4 => "4",
        5 => "5",
        6 => "6",
        7 => "7",
        8 => "8",
        _ => "9",
    };
    proof {
        assert(r@ =~= seq![spec_digit_char(d as int)]);
    }
    r
}

/// Renders an unsigned value in decimal.
pub fn u64_to_string(n: u64) -> (r: String)
    ensures
        r@ == spec_u64_string(n as int),
    decreases n,
{
    if n < 10 {
        String::from_str(digit_str(n))
    } else {
        let mut s = u64_to_string(n / 10);
        s.append(digit_str(n % 10));
        proof {
            assert(s@ =~= spec_u64_string(n as int));
        }
        s
    }
}

/// Renders a signed value in decimal.
pub fn i64_to_string(n: i64) -> (r: String)
    ensures
        r@ == spec_i64_string(n as int),
{
    if n < 0 {
        let mut s = String::from_str("-");
        let magnitude: u64 = if n == i64::MIN {
            9223372036854775808u64
        } else {
            (-n) as u64
        };
        let digits = u64_to_string(magnitude);
        s.append(digits.as_str());
        proof {
            reveal_strlit("-");
            assert(s@ =~= spec_i64_string(n as int));
        }
        s
    } else {
        u64_to_string(n as u64)
    }
}

/// The description a genesis participation writes into its derived rows:
/// the dedup key rendered as `hash@index` after a fixed prefix.
pub open spec fn spec_genesis_description(transaction_hash: Seq<char>, log_index: int) -> Seq<
    char,
> {
    "Genesis participation "@ + transaction_hash + "@"@ + spec_i64_string(log_index)
}

/// Builds the description of a derived genesis row.
pub fn genesis_description(transaction_hash: &str, log_index: i64) -> (r: String)
    ensures
        r@ == spec_genesis_description(transaction_hash@, log_index as int),
{
    let mut s = String::from_str("Genesis participation ");
    s.append(transaction_hash);
    s.append("@");
    let digits = i64_to_string(log_index);
    s.append(digits.as_str());
    proof {
        assert(s@ =~= spec_genesis_description(transaction_hash@, log_index as int));
    }
    s
}

/// The description a staking reward writes into its claim row.
pub open spec fn spec_staking_description(
    collection: Seq<char>,
    chain: Seq<char>,
    token_id: Seq<char>,
) -> Seq<char> {
    "Staking rewards for "@ + collection + "@"@ + chain + "@"@ + token_id
}

/// Builds the description of a staking reward's claim row.
pub fn staking_description(collection: &str, chain: &str, token_id: &str) -> (r: String)
    ensures
        r@ == spec_staking_description(collection@, chain@, token_id@),
{
    let mut s = String::from_str("Staking rewards for ");
    s.append(collection);
    s.append("@");
    s.append(chain);
    s.append("@");
    s.append(token_id);
    proof {
        assert(s@ =~= spec_staking_description(collection@, chain@, token_id@));
    }
    s
}

/// The description a manual token grant writes into its claim row.
pub open spec fn spec_manual_token_description(description: Seq<char>) -> Seq<char> {
    "Manual token reward for "@ + description
}

/// Builds the description of a manual token grant's claim row.
pub fn manual_token_description(description: &str) -> (r: String)
    ensures
        r@ == spec_manual_token_description(description@),
{
    let mut s = String::from_str("Manual token reward for ");
    s.append(description);
    proof {
        assert(s@ =~= spec_manual_token_description(description@));
    }
    s
}

/// Byte-for-byte equality of two slices.
pub fn bytes_eq(a: &[u8], b: &[u8]) -> (r: bool)
    ensures
        r == (a@ == b@),
{
    if a.len() != b.len() {
        proof {
            assert(a@.len() != b@.len());
        }
        return false;
    }
    let n = a.len();
    let mut i: usize = 0;
    while i < n
        invariant
            i <= n,
            n == a@.len(),
            n == b@.len(),
            forall|j: int| 0 <= j < i ==> a@[j] == b@[j],
        decreases n - i,
    {
        if a[i] != b[i] {
            return false;
        }
        i = i + 1;
    }
    proof {
        assert(a@ =~= b@);
    }
    true
}

/// The account string with every `0x` replaced by the `eth:` scheme, as
/// the node-management protocol names users.
pub open spec fn spec_replace_hex_prefix(s: Seq<char>) -> Seq<char>
    decreases s.len(),
{
    if s.len() >= 2 && s[0] == '0' && s[1] == 'x' {
        seq!['e', 't', 'h', ':'] + spec_replace_hex_prefix(s.skip(2))
    } else if s.len() >= 1 {
        seq![s[0]] + spec_replace_hex_prefix(s.skip(1))
    } else {
        Seq::<char>::empty()
    }
}

/// Turns an on-chain account string into a node-management user name,
/// replacing each `0x` occurrence with `eth:`.
pub fn str_to_xnode_user(address: &str) -> (r: String)
    ensures
        r@ == spec_replace_hex_prefix(address@),
{
    let n = address.unicode_len();
    let mut out = String::new();
    let mut i: usize = 0;
    proof {
        assert(address@.skip(0) =~= address@);
    }
    while i < n
        invariant
            i <= n,
            n == address@.len(),
            spec_replace_hex_prefix(address@) == out@ + spec_replace_hex_prefix(
                address@.skip(i as int),
            ),
        decreases n - i,
    {
        let c = address.get_char(i);
        if i + 1 < n && c == '0' && address.get_char(i + 1) == 'x' {
            out.append("eth:");
            proof {
                reveal_strlit("eth:");
                assert("eth:"@ =~= seq!['e', 't', 'h', ':']);
                assert(address@.skip(i as int).skip(2) =~= address@.skip(i + 2));
                assert(address@.skip(i as int)[0] == c);
                assert(address@.skip(i as int)[1] == address@[i + 1]);
                assert(out@ + spec_replace_hex_prefix(address@.skip(i + 2))
                    =~= spec_replace_hex_prefix(address@));
            }
            i = i + 2;
        } else {
            let piece = address.substring_char(i, i + 1);
            out.append(piece);
            proof {
                assert(piece@ =~= seq![address@[i as int]]);
                assert(address@.skip(i as int).skip(1) =~= address@.skip(i + 1));
                assert(address@.skip(i as int)[0] == c);
                if address@.skip(i as int).len() >= 2 {
                    assert(address@.skip(i as int)[1] == address@[i + 1]);
                }
                assert(out@ + spec_replace_hex_prefix(address@.skip(i + 1))
                    =~= spec_replace_hex_prefix(address@));
            }
            i = i + 1;
        }
    }
    proof {
        assert(address@.skip(n as int) =~= Seq::<char>::empty());
        assert(out@ =~= spec_replace_hex_prefix(address@));
    }
    out
}

} // verus!
