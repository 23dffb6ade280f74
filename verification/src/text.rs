//! Decimal rendering of integers and the token ids built from it.
use vstd::prelude::*;
use vstd::string::StringExecFns;

verus! {

/// The character of a decimal digit.
pub open spec fn digit_char(d: nat) -> char {
    if d == 0 {
        '0'
    } else if d == 1 {
        '1'
    } else if d == 2 {
        '2'
    } else if d == 3 {
        '3'
    } else if d == 4 {
        '4'
    } else if d == 5 {
        '5'
    } else if d == 6 {
        '6'
    } else if d == 7 {
        '7'
    } else if d == 8 {
        '8'
    } else {
        '9'
    }
}

/// The decimal representation of `n`, most significant digit first, with no
/// leading zeros (and "0" for zero).
pub open spec fn decimal(n: nat) -> Seq<char>
    decreases n,
{
    if n < 10 {
        seq![digit_char(n)]
    } else {
        decimal(n / 10).push(digit_char(n % 10))
    }
}

/// Seconds elapsed by a block timestamp given in nanoseconds.
pub open spec fn seconds_of(nanos: u64) -> nat {
    (nanos / 1_000_000_000) as nat
}

/// The token id the contracts give to a token minted at `nanos`: the
/// timestamp in seconds, the separator, then the account.
pub open spec fn token_id_of(nanos: u64, separator: Seq<char>, account: Seq<char>) -> Seq<char> {
    decimal(seconds_of(nanos)) + separator + account
}

/// A decimal representation holds no `_`.
pub proof fn lemma_decimal_has_no_separator(n: nat)
    ensures
        forall|i: int| 0 <= i < decimal(n).len() ==> decimal(n)[i] != '_',
    decreases n,
{
    if n >= 10 {
        lemma_decimal_has_no_separator(n / 10);
        let p = decimal(n / 10);
        assert(decimal(n) == p.push(digit_char(n % 10)));
        assert forall|i: int| 0 <= i < decimal(n).len() implies decimal(n)[i] != '_' by {
            if i < p.len() {
                assert(decimal(n)[i] == p[i]);
            }
        }
    } else {
        assert(decimal(n) == seq![digit_char(n)]);
    }
}

/// Two token ids built with the separator `_` are equal only when they name
/// the same account at the same second.
pub proof fn lemma_token_id_injective(t1: u64, t2: u64, a: Seq<char>, b: Seq<char>)
    requires
        token_id_of(t1, seq!['_'], a) == token_id_of(t2, seq!['_'], b),
    ensures
        a == b,
        decimal(seconds_of(t1)) == decimal(seconds_of(t2)),
{
    let d1 = decimal(seconds_of(t1));
    let d2 = decimal(seconds_of(t2));
    let x = token_id_of(t1, seq!['_'], a);
    lemma_decimal_has_no_separator(seconds_of(t1));
    lemma_decimal_has_no_separator(seconds_of(t2));
    if d1.len() < d2.len() {
        assert(x[d1.len() as int] == '_');
        assert(x[d1.len() as int] == d2[d1.len() as int]);
    }
    if d2.len() < d1.len() {
        assert(x[d2.len() as int] == '_');
        assert(x[d2.len() as int] == d1[d2.len() as int]);
    }
    assert(d1 =~= x.subrange(0, d1.len() as int));
    assert(d2 =~= x.subrange(0, d2.len() as int));
    assert(a =~= x.subrange(d1.len() as int + 1, x.len() as int));
    assert(b =~= x.subrange(d2.len() as int + 1, x.len() as int));
}

/// The text of one decimal digit.
fn digit_str(d: u64) -> (s: &'static str)
    requires
        d < 10,
    ensures
        s@ == seq![digit_char(d as nat)],
{
    if d == 0 {
        proof {
            reveal_strlit("0");
        }
        "0"
    } else if d == 1 {
        proof {
            reveal_strlit("1");
        }
        "1"
    } else if d == 2 {
        proof {
            reveal_strlit("2");
        }
        "2"
    } else if d == 3 {
        proof {
            reveal_strlit("3");
        }
        "3"
    } else if d == 4 {
        proof {
            reveal_strlit("4");
        }
        "4"
    } else if d == 5 {
        proof {
            reveal_strlit("5");
        }
        "5"
    } else if d == 6 {
        proof {
            reveal_strlit("6");
        }
        "6"
    } else if d == 7 {
        proof {
            reveal_strlit("7");
        }
        "7"
    } else if d == 8 {
        proof {
            reveal_strlit("8");
        }
        "8"
    } else {
        proof {
            reveal_strlit("9");
        }
        "9"
    }
}

/// The decimal representation of `n`, as `to_string` renders an integer.
pub fn decimal_string(n: u64) -> (s: String)
    ensures
        s@ == decimal(n as nat),
    decreases n,
{
    if n < 10 {
        String::from_str(digit_str(n))
    } else {
        let mut s = decimal_string(n / 10);
        s.append(digit_str(n % 10));
        s
    }
}

/// The token id for a token minted at block time `nanos` for `account`:
/// `<seconds><separator><account>`.
pub fn token_id(nanos: u64, separator: &str, account: &String) -> (id: String)
    ensures
        id@ == token_id_of(nanos, separator@, account@),
{
    let mut id = decimal_string(nanos / 1_000_000_000);
    id.append(separator);
    id.append(account.as_str());
    id
}

} // verus!
