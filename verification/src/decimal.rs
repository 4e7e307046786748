//! Decimal integers: parsing as `str::parse` does for `u64` and `i64`,
//! and formatting as `to_string` does.

use vstd::prelude::*;
use vstd::string::*;

verus! {

/// `true` for an ASCII digit byte.
pub open spec fn is_digit(b: u8) -> bool {
    48 <= b && b <= 57
}

/// All bytes of `d` are ASCII digits.
pub open spec fn all_digits(d: Seq<u8>) -> bool {
    forall|i: int| 0 <= i < d.len() ==> is_digit(#[trigger] d[i])
}

/// The value of a string of decimal digits (0 for the empty string).
pub open spec fn digits_value(d: Seq<u8>) -> nat
    decreases d.len(),
{
    if d.len() == 0 {
        0
    } else {
        digits_value(d.drop_last()) * 10 + (d.last() - 48) as nat
    }
}

/// The digit string after an optional `+` sign.
pub open spec fn unsigned_digits(b: Seq<u8>) -> Seq<u8> {
    if b.len() > 0 && b[0] == 43u8 {
        b.drop_first()
    } else {
        b
    }
}

/// `s.parse::<u64>()` on the bytes of `s`: an optional `+`, then at least
/// one digit, with a value that fits.
pub open spec fn parse_u64_spec(b: Seq<u8>) -> Option<u64> {
    let d = unsigned_digits(b);
    if d.len() > 0 && all_digits(d) && digits_value(d) <= u64::MAX {
        Some(digits_value(d) as u64)
    } else {
        None
    }
}

/// `s.parse::<i64>()` on the bytes of `s`: an optional `+` or `-`, then at
/// least one digit, with a value in range.
pub open spec fn parse_i64_spec(b: Seq<u8>) -> Option<i64> {
    if b.len() > 0 && b[0] == 45u8 {
        let d = b.drop_first();
        if d.len() > 0 && all_digits(d) && digits_value(d) <= 0x8000_0000_0000_0000 {
            Some((0 - digits_value(d)) as i64)
        } else {
            None
        }
    } else {
        let d = unsigned_digits(b);
        if d.len() > 0 && all_digits(d) && digits_value(d) <= i64::MAX {
            Some(digits_value(d) as i64)
        } else {
            None
        }
    }
}

proof fn lemma_digits_value_prefix(d: Seq<u8>, i: int)
    requires
        0 <= i <= d.len(),
        all_digits(d),
    ensures
        digits_value(d.subrange(0, i)) <= digits_value(d),
    decreases d.len(),
{
    if i < d.len() {
        assert(d.drop_last().subrange(0, i) =~= d.subrange(0, i));
        lemma_digits_value_prefix(d.drop_last(), i);
    } else {
        assert(d.subrange(0, i) =~= d);
    }
}

/// Value of the digits `d[from..to]`, accumulating; `None` when a byte is
/// not a digit or the value exceeds `u64::MAX`.
fn digits_to_u64(d: &[u8], from: usize, to: usize) -> (r: Option<u64>)
    requires
        from <= to <= d@.len(),
    ensures
        r == (if all_digits(d@.subrange(from as int, to as int)) && digits_value(
            d@.subrange(from as int, to as int),
        ) <= u64::MAX {
            Some(digits_value(d@.subrange(from as int, to as int)) as u64)
        } else {
            None::<u64>
        }),
{
    let ghost t = d@.subrange(from as int, to as int);
    let mut acc: u64 = 0;
    let mut i: usize = from;
    assert(t.subrange(0, 0) =~= Seq::<u8>::empty());
    while i < to
        invariant
            from <= i <= to <= d@.len(),
            t == d@.subrange(from as int, to as int),
            all_digits(t.subrange(0, i - from)),
            acc as nat == digits_value(t.subrange(0, i - from)),
        decreases to - i,
    {
        let c = d[i];
        if c < 48 || c > 57 {
            assert(!is_digit(t[i - from]));
            return None;
        }
        let ghost k = (i - from) as int;
        assert(t.subrange(0, k + 1).drop_last() =~= t.subrange(0, k));
        match acc.checked_mul(10) {
            None => {
                proof {
                    if all_digits(t) {
                        lemma_digits_value_prefix(t, k + 1);
                    }
                }
                return None;
            },
            Some(m) => match m.checked_add((c - 48) as u64) {
                None => {
                    proof {
                        if all_digits(t) {
                            lemma_digits_value_prefix(t, k + 1);
                        }
                    }
                    return None;
                },
                Some(v) => {
                    acc = v;
                },
            },
        }
        i = i + 1;
    }
    assert(t.subrange(0, i - from) =~= t);
    Some(acc)
}

/// `parse::<u64>()` of the bytes `b[from..to]`.
pub fn parse_u64_range(b: &[u8], from: usize, to: usize) -> (r: Option<u64>)
    requires
        from <= to <= b@.len(),
    ensures
        r == parse_u64_spec(b@.subrange(from as int, to as int)),
{
    let ghost w = b@.subrange(from as int, to as int);
    let start: usize = if from < to && b[from] == 43u8 {
        from + 1
    } else {
        from
    };
    if start == to {
        return None;
    }
    assert(unsigned_digits(w) =~= b@.subrange(start as int, to as int));
    digits_to_u64(b, start, to)
}

/// `parse::<i64>()` of the bytes `b[from..to]`.
pub fn parse_i64_range(b: &[u8], from: usize, to: usize) -> (r: Option<i64>)
    requires
        from <= to <= b@.len(),
    ensures
        r == parse_i64_spec(b@.subrange(from as int, to as int)),
{
    let ghost w = b@.subrange(from as int, to as int);
    if from < to && b[from] == 45u8 {
        if from + 1 == to {
            return None;
        }
        assert(w.drop_first() =~= b@.subrange(from + 1, to as int));
        match digits_to_u64(b, from + 1, to) {
            None => None,
            Some(v) => {
                if v <= 0x8000_0000_0000_0000u64 {
                    if v == 0x8000_0000_0000_0000u64 {
                        Some(i64::MIN)
                    } else {
                        Some(0 - (v as i64))
                    }
                } else {
                    None
                }
            },
        }
    } else {
        let start: usize = if from < to && b[from] == 43u8 {
            from + 1
        } else {
            from
        };
        if start == to {
            return None;
        }
        assert(unsigned_digits(w) =~= b@.subrange(start as int, to as int));
        match digits_to_u64(b, start, to) {
            None => None,
            Some(v) => {
                if v <= i64::MAX as u64 {
                    Some(v as i64)
                } else {
                    None
                }
            },
        }
    }
}

/// `s.parse::<u64>().ok()`.
pub fn parse_u64(s: &str) -> (r: Option<u64>)
    ensures
        r == parse_u64_spec(s.spec_bytes()),
{
    let b = s.as_bytes();
    assert(b@.subrange(0, b@.len() as int) =~= b@);
    parse_u64_range(b, 0, b.len())
}

/// `s.parse::<i64>().ok()`.
pub fn parse_i64(s: &str) -> (r: Option<i64>)
    ensures
        r == parse_i64_spec(s.spec_bytes()),
{
    let b = s.as_bytes();
    assert(b@.subrange(0, b@.len() as int) =~= b@);
    parse_i64_range(b, 0, b.len())
}

/// Decimal digits of `n`, most significant first, without leading zeros.
pub open spec fn nat_digits(n: nat) -> Seq<u8>
    decreases n,
{
    if n < 10 {
        seq![(48 + n) as u8]
    } else {
        nat_digits(n / 10).push((48 + n % 10) as u8)
    }
}

/// The decimal digits of `n` are at least one digit and read back as `n`.
pub proof fn lemma_nat_digits(n: nat)
    ensures
        nat_digits(n).len() >= 1,
        all_digits(nat_digits(n)),
        digits_value(nat_digits(n)) == n,
    decreases n,
{
    if n >= 10 {
        lemma_nat_digits(n / 10);
        let p = nat_digits(n / 10);
        let d = nat_digits(n);
        assert(d == p.push((48 + n % 10) as u8));
        assert(d.drop_last() =~= p);
        assert forall|i: int| 0 <= i < d.len() implies is_digit(#[trigger] d[i]) by {
            if i < p.len() {
                assert(d[i] == p[i]);
            }
        }
        assert((n / 10) * 10 + n % 10 == n) by (nonlinear_arith);
        assert(n % 10 < 10);
        assert(d.last() == (48 + n % 10) as u8);
        assert((d.last() - 48) as nat == n % 10);
        assert(digits_value(d) == digits_value(p) * 10 + (d.last() - 48) as nat);
    } else {
        let d = nat_digits(n);
        assert(d.drop_last() =~= Seq::<u8>::empty());
        assert(d.last() == (48 + n) as u8);
        assert(digits_value(d) == digits_value(d.drop_last()) * 10 + (d.last() - 48) as nat);
    }
}

/// What `x.to_string()` gives, as bytes.
pub open spec fn i64_decimal(x: i64) -> Seq<u8> {
    if x < 0 {
        seq![45u8] + nat_digits((0 - x) as nat)
    } else {
        nat_digits(x as nat)
    }
}

/// Digits of `n`, most significant first.
pub(crate) fn u64_digits(n: u64) -> (v: Vec<u8>)
    ensures
        v@ == nat_digits(n as nat),
    decreases n,
{
    if n < 10 {
        let mut v: Vec<u8> = Vec::new();
        v.push((48 + n) as u8);
        assert(v@ =~= nat_digits(n as nat));
        v
    } else {
        let mut v = u64_digits(n / 10);
        v.push((48 + n % 10) as u8);
        v
    }
}

/// The bytes of `x.to_string()`.
pub fn i64_to_decimal(x: i64) -> (v: Vec<u8>)
    ensures
        v@ == i64_decimal(x),
{
    if x < 0 {
        let mag: u64 = if x == i64::MIN {
            0x8000_0000_0000_0000u64
        } else {
            (0 - x) as u64
        };
        let d = u64_digits(mag);
        let mut v: Vec<u8> = Vec::new();
        v.push(45u8);
        let mut i: usize = 0;
        while i < d.len()
            invariant
                i <= d@.len(),
                v@ == seq![45u8] + d@.subrange(0, i as int),
            decreases d@.len() - i,
        {
            v.push(d[i]);
            assert(d@.subrange(0, i + 1) =~= d@.subrange(0, i as int).push(d@[i as int]));
            i = i + 1;
        }
        assert(d@.subrange(0, i as int) =~= d@);
        v
    } else {
        u64_digits(x as u64)
    }
}


/// What `x.to_string()` gives, as characters.
pub open spec fn i64_decimal_chars(x: i64) -> Seq<char> {
    i64_decimal(x).map_values(|b: u8| b as char)
}

fn byte_str(b: u8) -> (s: &'static str)
    requires
        b == 45 || (48 <= b && b <= 57),
    ensures
        s@ == seq![b as char],
{
    proof {
        reveal_strlit("-");
        reveal_strlit("0");
        reveal_strlit("1");
        reveal_strlit("2");
        reveal_strlit("3");
        reveal_strlit("4");
        reveal_strlit("5");
        reveal_strlit("6");
        reveal_strlit("7");
        reveal_strlit("8");
        reveal_strlit("9");
    }
    match b {
        45 => "-",
        48 => "0",
        49 => "1",
        50 => "2",
        51 => "3",
        52 => "4",
        53 => "5",
        54 => "6",
        55 => "7",
        56 => "8",
        _ => "9",
    }
}

proof fn lemma_nat_digits_are_digits(n: nat)
    ensures
        forall|i: int| 0 <= i < nat_digits(n).len() ==> is_digit(#[trigger] nat_digits(n)[i]),
    decreases n,
{
    if n >= 10 {
        lemma_nat_digits_are_digits(n / 10);
        let p = nat_digits(n / 10);
        assert(n % 10 < 10);
        assert forall|i: int| 0 <= i < nat_digits(n).len() implies is_digit(
            #[trigger] nat_digits(n)[i],
        ) by {
            if i < p.len() {
                assert(nat_digits(n)[i] == p[i]);
            }
        }
    }
}

/// The characters of decimal text held as bytes.
fn digits_string(d: &Vec<u8>) -> (s: String)
    requires
        forall|j: int| 0 <= j < d@.len() ==> d@[j] == 45 || is_digit(d@[j]),
    ensures
        s@ == d@.map_values(|b: u8| b as char),
{
    let mut s = String::new();
    let mut i: usize = 0;
    while i < d.len()
        invariant
            i <= d@.len(),
            forall|j: int| 0 <= j < d@.len() ==> d@[j] == 45 || is_digit(d@[j]),
            s@ == d@.subrange(0, i as int).map_values(|b: u8| b as char),
        decreases d@.len() - i,
    {
        s.append(byte_str(d[i]));
        assert(d@.subrange(0, i + 1).map_values(|b: u8| b as char) =~= d@.subrange(
            0,
            i as int,
        ).map_values(|b: u8| b as char) + seq![d@[i as int] as char]);
        i = i + 1;
    }
    assert(d@.subrange(0, i as int) =~= d@);
    s
}

/// `x.to_string()`.
pub fn i64_to_string(x: i64) -> (s: String)
    ensures
        s@ == i64_decimal_chars(x),
{
    let d = i64_to_decimal(x);
    proof {
        if x < 0 {
            lemma_nat_digits_are_digits((0 - x) as nat);
        } else {
            lemma_nat_digits_are_digits(x as nat);
        }
        assert forall|i: int| 0 <= i < d@.len() implies d@[i] == 45 || is_digit(d@[i]) by {
            if x < 0 && i > 0 {
                assert(d@[i] == nat_digits((0 - x) as nat)[i - 1]);
            }
        }
    }
    digits_string(&d)
}

/// What `n.to_string()` gives for an unsigned number.
pub open spec fn u64_decimal_chars(n: u64) -> Seq<char> {
    nat_digits(n as nat).map_values(|b: u8| b as char)
}

/// `n.to_string()`.
pub fn u64_to_string(n: u64) -> (s: String)
    ensures
        s@ == u64_decimal_chars(n),
{
    let d = u64_digits(n);
    proof {
        lemma_nat_digits_are_digits(n as nat);
    }
    digits_string(&d)
}

} // verus!
