//! Text building blocks: comparison, decimal numbers and case folding.
use vstd::prelude::*;

verus! {

/// The character that writes the digit `d`.
pub open spec fn digit_char(d: nat) -> char
    recommends
        d < 10,
{
    (48 + d) as char
}

/// The decimal digits of `n`, most significant first, without leading zeros.
pub open spec fn digits(n: nat) -> Seq<char>
    decreases n,
{
    if n < 10 {
        seq![digit_char(n)]
    } else {
        digits(n / 10).push(digit_char(n % 10))
    }
}

/// The decimal notation of `i`: its digits, behind a minus sign where `i` is negative.
pub open spec fn decimal(i: int) -> Seq<char> {
    if i < 0 {
        seq!['-'] + digits((-i) as nat)
    } else {
        digits(i as nat)
    }
}

/// Whether `s` is made of decimal digits alone.
pub open spec fn all_digits(s: Seq<char>) -> bool {
    forall|i: int| 0 <= i < s.len() ==> '0' <= #[trigger] s[i] <= '9'
}

/// The number that the decimal digits `s` write.
pub open spec fn digits_value(s: Seq<char>) -> nat
    decreases s.len(),
{
    if s.len() == 0 {
        0
    } else {
        10 * digits_value(s.drop_last()) + (s.last() as nat - 48) as nat
    }
}

/// The number written by `s` as digits alone, at least one of them.
pub open spec fn unsigned_value(s: Seq<char>) -> Option<nat> {
    if s.len() > 0 && all_digits(s) {
        Some(digits_value(s))
    } else {
        None
    }
}

/// `s` without a sign in front.
pub open spec fn after_sign(s: Seq<char>, sign: char) -> Seq<char> {
    if s.len() > 0 && s[0] == sign {
        s.skip(1)
    } else {
        s
    }
}

/// What `s` means as a `u32`: digits behind an optional plus sign, in range.
pub open spec fn u32_value(s: Seq<char>) -> Option<int> {
    match unsigned_value(after_sign(s, '+')) {
        Some(n) => if n <= u32::MAX {
            Some(n as int)
        } else {
            None
        },
        None => None,
    }
}

/// What `s` means as an `i32`: digits behind an optional sign, in range.
pub open spec fn i32_value(s: Seq<char>) -> Option<int> {
    let negative = s.len() > 0 && s[0] == '-';
    match unsigned_value(after_sign(s, if negative { '-' } else { '+' })) {
        Some(n) => if negative && -n >= i32::MIN {
            Some(-n)
        } else if !negative && n <= i32::MAX {
            Some(n as int)
        } else {
            None
        },
        None => None,
    }
}

/// `a / b` rounded towards zero.
pub open spec fn quotient(a: int, b: int) -> int
    recommends
        b > 0,
{
    if a >= 0 {
        a / b
    } else {
        -((-a) / b)
    }
}

/// `s` with every slash turned into a backslash.
pub open spec fn backslashed(s: Seq<char>) -> Seq<char> {
    s.map_values(
        |c: char|
            if c == '/' {
                '\\'
            } else {
                c
            },
    )
}

/// The lower-case form of an ASCII character.
pub open spec fn ascii_lower(c: char) -> char {
    if 'A' <= c <= 'Z' {
        (c as int + 32) as char
    } else {
        c
    }
}

/// The lower-case form of `s` under Unicode's rules, as `str::to_lowercase` gives it.
pub uninterp spec fn lowercase(s: Seq<char>) -> Seq<char>;

/// `s` in lower case: `A` to `Z` mapped to `a` to `z` where it is ASCII, else by Unicode's rules.
pub open spec fn lowered(s: Seq<char>) -> Seq<char> {
    if vstd::utf8::is_ascii_chars(s) {
        s.map_values(|c: char| ascii_lower(c))
    } else {
        lowercase(s)
    }
}

/// Calls `str::to_lowercase`. Trusted: the result depends on the text alone, and where the text
/// is ASCII, `A` to `Z` are mapped to `a` to `z` and nothing else changes.
#[verifier::external_body]
pub(crate) fn to_lower(s: &str) -> (lower: String)
    ensures
        lower@ == lowercase(s@),
        vstd::utf8::is_ascii_chars(s@) ==> lower@ == s@.map_values(|c: char| ascii_lower(c)),
{
    s.to_lowercase()
}

/// `String::push`. Trusted: it appends the one character.
pub assume_specification[ String::push ](s: &mut String, c: char)
    ensures
        final(s)@ == old(s)@.push(c),
;

/// Whether two texts are the same.
pub fn same_text(a: &str, b: &str) -> (same: bool)
    ensures
        same == (a@ == b@),
{
    a.to_owned() == b.to_owned()
}

/// Whether `s` begins with `prefix`.
pub fn begins_with(s: &str, prefix: &str) -> (begins: bool)
    ensures
        begins == prefix@.is_prefix_of(s@),
{
    let n: usize = prefix.unicode_len();
    if s.unicode_len() < n {
        return false;
    }
    let head = s.substring_char(0, n);
    proof {
        assert(prefix@.is_prefix_of(s@) <==> prefix@ =~= s@.subrange(0, n as int));
    }
    same_text(head, prefix)
}

/// `s` with every slash turned into a backslash.
pub fn to_backslashes(s: &str) -> (out: String)
    ensures
        out@ == backslashed(s@),
{
    let mut out = String::new();
    for c in it: s.chars()
        invariant
            it.seq() == s@,
            out@ == backslashed(s@.take(it.index())),
    {
        out.push(
            if c == '/' {
                '\\'
            } else {
                c
            },
        );
        assert(out@ =~= backslashed(s@.take(it.index() + 1)));
    }
    assert(s@.take(s@.len() as int) =~= s@);
    out
}

/// Appends the decimal digits of `n` to `s`.
pub fn push_digits(s: &mut String, n: u128)
    ensures
        final(s)@ == old(s)@ + digits(n as nat),
    decreases n,
{
    if n < 10 {
        s.push((48u8 + n as u8) as char);
        assert(s@ =~= old(s)@ + digits(n as nat));
    } else {
        push_digits(s, n / 10);
        s.push((48u8 + (n % 10) as u8) as char);
        assert(s@ =~= old(s)@ + digits(n as nat));
    }
}

/// Appends the decimal notation of `i` to `s`.
pub fn push_decimal(s: &mut String, i: i64)
    ensures
        final(s)@ == old(s)@ + decimal(i as int),
{
    if i < 0 {
        s.push('-');
        push_digits(s, (-(i as i128)) as u128);
        assert(s@ =~= old(s)@ + decimal(i as int));
    } else {
        push_digits(s, i as u128);
    }
}

/// `a / b` rounded towards zero.
pub fn divide(a: i64, b: i64) -> (q: i64)
    requires
        b > 0,
    ensures
        q == quotient(a as int, b as int),
{
    if a >= 0 {
        a / b
    } else {
        let size: i128 = -(a as i128);
        let share: i128 = size / b as i128;
        proof {
            vstd::arithmetic::div_mod::lemma_div_is_ordered_by_denominator(
                size as int,
                1,
                b as int,
            );
            vstd::arithmetic::div_mod::lemma_div_pos_is_pos(size as int, b as int);
        }
        (-share) as i64
    }
}

/// The number that `s` writes with digits alone, where it is at most `limit`.
fn parse_digits(s: &str, limit: u64) -> (n: Option<u64>)
    requires
        limit <= 0xffff_ffff_ffff,
    ensures
        n == (match unsigned_value(s@) {
            Some(v) => if v <= limit {
                Some(v as u64)
            } else {
                None
            },
            None => None,
        }),
{
    let len: usize = s.unicode_len();
    if len == 0 {
        return None;
    }
    let mut value: u64 = 0;
    let mut over: bool = false;
    for c in it: s.chars()
        invariant
            it.seq() == s@,
            limit <= 0xffff_ffff_ffff,
            all_digits(s@.take(it.index())),
            over ==> digits_value(s@.take(it.index())) > limit,
            !over ==> value == digits_value(s@.take(it.index())) && value <= limit,
    {
        let ghost i = it.index();
        let ghost next = s@.take(i + 1);
        assert(next.drop_last() =~= s@.take(i));
        assert(next.last() == c);
        if c < '0' || c > '9' {
            assert(!all_digits(s@)) by {
                assert(s@[i] == c);
            }
            return None;
        }
        assert(all_digits(next)) by {
            assert forall|j: int| 0 <= j < next.len() implies '0' <= #[trigger] next[j] <= '9' by {
                if j < i {
                    assert(next[j] == s@.take(i)[j]);
                }
            }
        }
        if !over {
            value = value * 10 + (c as u32 - 48) as u64;
            if value > limit {
                over = true;
            }
        }
    }
    assert(s@.take(s@.len() as int) =~= s@);
    if over {
        None
    } else {
        Some(value)
    }
}

/// Reads `s` as a `u32`.
pub fn parse_u32(s: &str) -> (n: Option<u32>)
    ensures
        n == (match u32_value(s@) {
            Some(v) => Some(v as u32),
            None => None,
        }),
{
    let len: usize = s.unicode_len();
    let body = if len > 0 && s.get_char(0) == '+' {
        s.substring_char(1, len)
    } else {
        s
    };
    assert(body@ =~= after_sign(s@, '+'));
    match parse_digits(body, u32::MAX as u64) {
        Some(v) => Some(v as u32),
        None => None,
    }
}

/// Reads `s` as an `i32`.
pub fn parse_i32(s: &str) -> (n: Option<i32>)
    ensures
        n == (match i32_value(s@) {
            Some(v) => Some(v as i32),
            None => None,
        }),
{
    let len: usize = s.unicode_len();
    let negative: bool = len > 0 && s.get_char(0) == '-';
    let signed: bool = negative || (len > 0 && s.get_char(0) == '+');
    let body = if signed {
        s.substring_char(1, len)
    } else {
        s
    };
    assert(body@ =~= after_sign(s@, if negative { '-' } else { '+' }));
    let limit: u64 = if negative {
        0x8000_0000
    } else {
        0x7fff_ffff
    };
    match parse_digits(body, limit) {
        Some(v) => if negative {
            Some((-(v as i64)) as i32)
        } else {
            Some(v as i32)
        },
        None => None,
    }
}

/// Digits are written in tens: one digit behind another number adds one digit to its digits, and a
/// number below ten is one digit.
pub proof fn law_digits_are_written_in_tens(n: nat, d: nat)
    requires
        d < 10,
    ensures
        digits(d) == seq![('0' as int + d) as char],
        n > 0 ==> digits(n * 10 + d) == digits(n).push(('0' as int + d) as char),
        decimal(n as int) == digits(n),
        n > 0 ==> decimal(-n) == seq!['-'] + digits(n),
{
    assert((n * 10 + d) / 10 == n && (n * 10 + d) % 10 == d);
    assert(digits(d) =~= seq![('0' as int + d) as char]);
}

/// A number is read as it is written: the digits of every number that fits give that number, with or
/// without a sign in front that it may have, and nothing but digits behind a sign is a number.
pub proof fn law_numbers_are_read_as_written(s: &str, n: Option<u32>, i: Option<i32>, v: nat)
    requires
        call_ensures(parse_u32, (s,), n),
        call_ensures(parse_i32, (s,), i),
    ensures
        s@ == digits(v) || s@ == seq!['+'] + digits(v) ==> n == (if v <= 0xffff_ffff {
            Some(v as u32)
        } else {
            None
        }) && i == (if v <= 0x7fff_ffff {
            Some(v as i32)
        } else {
            None
        }),
        s@ == seq!['-'] + digits(v) ==> n is None && i == (if v <= 0x8000_0000 {
            Some((-v) as i32)
        } else {
            None
        }),
        s@.len() == 0 ==> n is None && i is None,
        (exists|k: int| 0 < k < s@.len() && !('0' <= #[trigger] s@[k] <= '9')) ==> n is None
            && i is None,
        s@.len() > 0 && s@[0] != '+' && s@[0] != '-' && !('0' <= s@[0] <= '9') ==> n is None
            && i is None,
{
    lemma_digits_value(v);
    let w = digits(v);
    assert(w[0] != '+' && w[0] != '-') by {
        assert('0' <= w[0] <= '9');
    }
    if s@ == seq!['+'] + w {
        assert(s@.skip(1) =~= w);
        assert(s@.subrange(1, s@.len() as int) =~= w);
    }
    if s@ == seq!['-'] + w {
        assert(s@.skip(1) =~= w);
        assert(s@.subrange(1, s@.len() as int) =~= w);
        assert(!('0' <= s@[0] <= '9'));
    }
    if exists|k: int| 0 < k < s@.len() && !('0' <= #[trigger] s@[k] <= '9') {
        let k = choose|k: int| 0 < k < s@.len() && !('0' <= #[trigger] s@[k] <= '9');
        assert(s@.skip(1)[k - 1] == s@[k]);
        assert(s@.subrange(1, s@.len() as int)[k - 1] == s@[k]);
    }
}

/// Reading the digits of a number gives the number.
pub(crate) proof fn lemma_digits_value(n: nat)
    ensures
        digits_value(digits(n)) == n,
        all_digits(digits(n)),
        digits(n).len() > 0,
    decreases n,
{
    let s = digits(n);
    if n < 10 {
        assert(s.drop_last() =~= Seq::<char>::empty());
        assert(digits_value(s.drop_last()) == 0);
        assert(s.last() == digit_char(n));
    } else {
        lemma_digits_value(n / 10);
        assert(s.drop_last() =~= digits(n / 10));
        assert(s.last() == digit_char(n % 10));
        assert forall|i: int| 0 <= i < s.len() implies '0' <= #[trigger] s[i] <= '9' by {
            if i < s.len() - 1 {
                assert(s[i] == digits(n / 10)[i]);
            }
        }
    }
}

/// Division cuts off towards zero: the quotient times the divisor falls short of the number by less
/// than the divisor, on the same side of zero.
pub proof fn law_division_cuts_off(a: i64, b: i64, q: i64)
    requires
        b > 0,
        call_ensures(divide, (a, b), q),
    ensures
        a >= 0 ==> q >= 0 && q * b <= a < q * b + b,
        a <= 0 ==> q <= 0 && q * b - b < a <= q * b,
{
    let (size, d) = (if a >= 0 {
        a as int
    } else {
        -a
    }, b as int);
    vstd::arithmetic::div_mod::lemma_fundamental_div_mod(size, d);
    vstd::arithmetic::div_mod::lemma_div_pos_is_pos(size, d);
    let p = size / d;
    assert(d * p == p * d) by (nonlinear_arith);
    assert((-p) * d == -(p * d)) by (nonlinear_arith);
}

} // verus!
