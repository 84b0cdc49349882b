use vstd::prelude::*;
use vstd::arithmetic::div_mod::lemma_fundamental_div_mod;
use vstd::arithmetic::div_mod::lemma_fundamental_div_mod_converse;

verus! {

// Integer fields of the schema arrive as the text of a JSON number. This
// module fixes the canonical decimal form of an integer (what the format's
// writer emits) and gives a verified renderer and parser for it. A number
// text that is not in canonical integer form is not an integer field value.

/// `c` is a decimal digit.
pub open spec fn spec_is_digit(c: char) -> bool {
    ('0' as int) <= c as int <= ('9' as int)
}

/// The numeric value of a digit character.
pub open spec fn spec_digit_val(c: char) -> int {
    c as int - ('0' as int)
}

/// The digit character for a value between 0 and 9.
pub open spec fn spec_digit(d: int) -> char {
    if d == 0 {
        '0'
    } else if d == 1 {
        '1'
    } else if d == 2 {
        '2'
    } else if d == 3 {
        '3'
    } else if d == 4 {
        '4'
    } else if d == 5 {
        '5'
    } else if d == 6 {
        '6'
    } else if d == 7 {
        '7'
    } else if d == 8 {
        '8'
    } else {
        '9'
    }
}

/// Every character of `s` is a decimal digit.
pub open spec fn all_digits(s: Seq<char>) -> bool {
    forall|i: int| 0 <= i < s.len() ==> spec_is_digit(#[trigger] s[i])
}

/// The value of a digit string, most significant digit first.
pub open spec fn digits_val(s: Seq<char>) -> int
    decreases s.len(),
{
    if s.len() == 0 {
        0
    } else {
        digits_val(s.drop_last()) * 10 + spec_digit_val(s.last())
    }
}

/// `s` is the canonical digit form of a nonnegative integer: nonempty, all
/// digits, and without a superfluous leading zero.
pub open spec fn canonical_digits(s: Seq<char>) -> bool {
    &&& s.len() >= 1
    &&& all_digits(s)
    &&& (s.len() == 1 || s[0] != '0')
}

/// The canonical digit text of a nonnegative integer.
pub open spec fn spec_render_nat(n: nat) -> Seq<char>
    decreases n,
{
    if n <= 9 {
        seq![spec_digit(n as int)]
    } else {
        spec_render_nat(n / 10).push(spec_digit((n % 10) as int))
    }
}

/// The canonical decimal text of an integer: a minus sign for negative
/// values, then the canonical digits of the magnitude.
pub open spec fn spec_render_int(n: int) -> Seq<char> {
    if n < 0 {
        seq!['-'] + spec_render_nat((-n) as nat)
    } else {
        spec_render_nat(n as nat)
    }
}

/// The integer denoted by `t` when `t` is the canonical decimal text of an
/// integer that fits in `i64`; `None` otherwise.
pub open spec fn spec_parse_i64(t: Seq<char>) -> Option<int> {
    if t.len() > 0 && t[0] == '-' {
        let d = t.skip(1);
        if canonical_digits(d) && digits_val(d) > 0 && -digits_val(d) >= i64::MIN as int {
            Some(-digits_val(d))
        } else {
            None
        }
    } else {
        if canonical_digits(t) && digits_val(t) <= i64::MAX as int {
            Some(digits_val(t))
        } else {
            None
        }
    }
}

/// The value of a digit string is nonnegative.
pub proof fn lemma_dv_nonneg(s: Seq<char>)
    requires
        all_digits(s),
    ensures
        digits_val(s) >= 0,
    decreases s.len(),
{
    if s.len() > 0 {
        assert(all_digits(s.drop_last()));
        lemma_dv_nonneg(s.drop_last());
    }
}

/// A digit string without a leading zero has value at least 1.
pub proof fn lemma_dv_positive(s: Seq<char>)
    requires
        all_digits(s),
        s.len() >= 1,
        s[0] != '0',
    ensures
        digits_val(s) >= 1,
    decreases s.len(),
{
    if s.len() == 1 {
        assert(s.last() == s[0]);
        assert(digits_val(s.drop_last()) == 0);
        assert(spec_digit_val(s[0]) >= 1);
    } else {
        assert(s.drop_last()[0] == s[0]);
        assert(all_digits(s.drop_last()));
        lemma_dv_positive(s.drop_last());
        assert(spec_digit_val(s.last()) >= 0);
    }
}

/// Rendering a nonnegative integer gives its canonical digits, whose value is
/// the integer itself.
pub proof fn lemma_render_nat_props(n: nat)
    ensures
        canonical_digits(spec_render_nat(n)),
        digits_val(spec_render_nat(n)) == n,
        n >= 1 ==> spec_render_nat(n)[0] != '0',
        n <= 9 <==> spec_render_nat(n).len() == 1,
    decreases n,
{
    if n <= 9 {
        assert(spec_render_nat(n) == seq![spec_digit(n as int)]);
        assert(digits_val(seq![spec_digit(n as int)].drop_last()) == 0);
    } else {
        lemma_render_nat_props(n / 10);
        let r = spec_render_nat(n);
        let p = spec_render_nat(n / 10);
        assert(r == p.push(spec_digit((n % 10) as int)));
        assert(r.drop_last() =~= p);
        assert(r.last() == spec_digit((n % 10) as int));
        lemma_fundamental_div_mod(n as int, 10);
        assert(digits_val(r) == digits_val(p) * 10 + (n % 10));
        assert(all_digits(r)) by {
            assert(forall|i: int| 0 <= i < p.len() ==> r[i] == p[i]);
        }
        assert(r[0] == p[0]);
    }
}

/// A canonical digit string renders back to itself.
pub proof fn lemma_dv_render(s: Seq<char>)
    requires
        canonical_digits(s),
    ensures
        digits_val(s) >= 0,
        spec_render_nat(digits_val(s) as nat) == s,
    decreases s.len(),
{
    lemma_dv_nonneg(s);
    if s.len() == 1 {
        assert(digits_val(s) == spec_digit_val(s[0])) by {
            assert(s.drop_last().len() == 0);
            assert(digits_val(s.drop_last()) == 0);
            assert(s.last() == s[0]);
        }
        assert(spec_digit(spec_digit_val(s[0])) == s[0]);
        assert(spec_render_nat(digits_val(s) as nat) =~= s);
    } else {
        let p = s.drop_last();
        assert(p[0] == s[0]);
        assert(all_digits(p));
        assert(canonical_digits(p));
        lemma_dv_render(p);
        lemma_dv_positive(p);
        let v = digits_val(s);
        let pv = digits_val(p);
        assert(v == pv * 10 + spec_digit_val(s.last()));
        assert(0 <= spec_digit_val(s.last()) <= 9);
        lemma_fundamental_div_mod_converse(v, 10, pv, spec_digit_val(s.last()));
        assert(v / 10 == pv);
        assert(v % 10 == spec_digit_val(s.last()));
        assert(v >= 10);
        assert(spec_render_nat(v as nat) == spec_render_nat(pv as nat).push(spec_digit(v % 10)));
        assert(spec_digit(spec_digit_val(s.last())) == s.last());
        assert(spec_render_nat(v as nat) =~= s);
    }
}

/// A proper prefix of a digit string never has a larger value than the whole.
pub proof fn lemma_dv_prefix(s: Seq<char>, k: int)
    requires
        all_digits(s),
        0 <= k <= s.len(),
    ensures
        digits_val(s.take(k)) <= digits_val(s),
    decreases s.len() - k,
{
    if k == s.len() {
        assert(s.take(k) =~= s);
    } else {
        lemma_dv_prefix(s, k + 1);
        let a = s.take(k);
        let b = s.take(k + 1);
        assert(b.drop_last() =~= a);
        assert(all_digits(a)) by {
            assert(forall|i: int| 0 <= i < a.len() ==> a[i] == s[i]);
        }
        lemma_dv_nonneg(a);
        assert(digits_val(b) == digits_val(a) * 10 + spec_digit_val(b.last()));
        assert(spec_digit_val(b.last()) >= 0);
        assert(digits_val(a) * 10 >= digits_val(a));
    }
}

/// Parsing the canonical text of an `i64` value gives that value back.
pub proof fn lemma_parse_of_render(n: int)
    requires
        i64::MIN as int <= n <= i64::MAX as int,
    ensures
        spec_parse_i64(spec_render_int(n)) == Some(n),
{
    if n < 0 {
        lemma_render_nat_props((-n) as nat);
        let t = spec_render_int(n);
        assert(t[0] == '-');
        assert(t.skip(1) =~= spec_render_nat((-n) as nat));
    } else {
        lemma_render_nat_props(n as nat);
        let t = spec_render_int(n);
        assert(t.len() > 0);
        assert(t[0] != '-') by {
            assert(spec_is_digit(t[0]));
        }
    }
}

/// A text that parses as an `i64` value is that value's canonical text.
pub proof fn lemma_render_of_parse(t: Seq<char>, n: int)
    requires
        spec_parse_i64(t) == Some(n),
    ensures
        i64::MIN as int <= n <= i64::MAX as int,
        spec_render_int(n) == t,
{
    if t.len() > 0 && t[0] == '-' {
        let d = t.skip(1);
        lemma_dv_render(d);
        assert(spec_render_int(n) == seq!['-'] + spec_render_nat(digits_val(d) as nat));
        assert(seq!['-'] + d =~= t);
    } else {
        lemma_dv_render(t);
        lemma_dv_nonneg(t);
    }
}

/// The digit character for a value between 0 and 9, as text.
fn digit_str(d: u64) -> (r: &'static str)
    requires
        d <= 9,
    ensures
        r@ == seq![spec_digit(d as int)],
{
    proof {
        reveal_strlit("0");
        reveal_strlit("1");
        reveal_strlit("2");
        reveal_strlit("3");
        reveal_strlit("4");
        reveal_strlit("5");
        reveal_strlit("6");
        reveal_strlit("7");
        reveal_strlit("8");
        reveal_strlit("9");
    }
    let r = match d {
        0 => "0",
        1 => "1",
        2 => "2",
        3 => "3",
        4 => "4",
        5 => "5",
        6 => "6",
        7 => "7",
        8 => "8",
        _ => "9",
    };
    proof {
        assert(r@ =~= seq![spec_digit(d as int)]);
    }
    r
}

/// The canonical digit text of a nonnegative integer.
pub fn render_u64(n: u64) -> (r: String)
    ensures
        r@ == spec_render_nat(n as nat),
    decreases n,
{
    if n <= 9 {
        digit_str(n).to_owned()
    } else {
        let mut s = render_u64(n / 10);
        s.append(digit_str(n % 10));
        proof {
            assert(s@ =~= spec_render_nat(n as nat));
        }
        s
    }
}

/// The canonical decimal text of an `i64` value.
pub fn render_i64(n: i64) -> (r: String)
    ensures
        r@ == spec_render_int(n as int),
{
    proof {
        reveal_strlit("-");
    }
    if n >= 0 {
        render_u64(n as u64)
    } else {
        let mag: u64 = if n == i64::MIN {
            9223372036854775808u64
        } else {
            (-n) as u64
        };
        let mut s = "-".to_owned();
        let digits = render_u64(mag);
        s.append(digits.as_str());
        proof {
            assert(s@ =~= spec_render_int(n as int));
        }
        s
    }
}

/// Reads an `i64` value from its canonical decimal text; any other text is
/// refused.
pub fn parse_i64(t: &str) -> (r: Option<i64>)
    ensures
        match r {
            Some(n) => spec_parse_i64(t@) == Some(n as int),
            None => spec_parse_i64(t@) is None,
        },
{
    let len = t.unicode_len();
    if len == 0 {
        return None;
    }
    let neg = t.get_char(0) == '-';
    let start: usize = if neg {
        1
    } else {
        0
    };
    let ghost digits = t@.skip(start as int);
    if len == start {
        return None;
    }
    assert(digits.len() >= 1);
    if len - start >= 2 && t.get_char(start) == '0' {
        assert(digits[0] == '0');
        return None;
    }
    let mut acc: u64 = 0;
    let mut i: usize = start;
    while i < len
        invariant
            start <= i <= len,
            len == t@.len(),
            start == 0 || start == 1,
            neg == (t@.len() > 0 && t@[0] == '-'),
            neg ==> start == 1,
            !neg ==> start == 0,
            digits == t@.skip(start as int),
            all_digits(t@.subrange(start as int, i as int)),
            acc as int == digits_val(t@.subrange(start as int, i as int)),
        decreases len - i,
    {
        let c = t.get_char(i);
        let code = c as u32;
        let ghost pre = t@.subrange(start as int, i as int);
        let ghost post = t@.subrange(start as int, i + 1 as int);
        assert(post.drop_last() =~= pre);
        assert(post.last() == t@[i as int]);
        if !(code >= 48 && code <= 57) {
            assert(!spec_is_digit(t@[i as int]));
            assert(digits[i - start] == t@[i as int]);
            assert(!all_digits(digits));
            assert(start == 0 ==> digits =~= t@);
            assert(spec_parse_i64(t@) is None);
            return None;
        }
        let d: u64 = (code - 48) as u64;
        assert(d as int == spec_digit_val(t@[i as int]));
        let shifted = match acc.checked_mul(10) {
            Some(v) => v,
            None => {
                proof {
                    parse_overflow_none(t@, start as int, i as int, acc as int * 10);
                }
                return None;
            },
        };
        let widened = match shifted.checked_add(d) {
            Some(v) => v,
            None => {
                proof {
                    parse_overflow_none(t@, start as int, i as int, acc as int * 10 + d);
                }
                return None;
            },
        };
        acc = widened;
        i = i + 1;
    }
    assert(t@.subrange(start as int, len as int) =~= digits);
    assert(digits[0] == t@[start as int]);
    assert(canonical_digits(digits));
    assert(acc as int == digits_val(digits));
    if neg {
        assert(t@[0] == '-');
        if acc == 0 {
            return None;
        }
        if acc > 9223372036854775808u64 {
            return None;
        }
        if acc == 9223372036854775808u64 {
            Some(i64::MIN)
        } else {
            Some(-(acc as i64))
        }
    } else {
        assert(!(t@.len() > 0 && t@[0] == '-'));
        assert(digits =~= t@);
        if acc > 9223372036854775807u64 {
            return None;
        }
        Some(acc as i64)
    }
}

/// When the value of the digits scanned so far already exceeds the `i64`
/// range, no `i64` value's canonical text can have the whole text as its
/// digits, so the parse must refuse.
proof fn parse_overflow_none(t: Seq<char>, start: int, i: int, big: int)
    requires
        start == 0 || start == 1,
        start == 1 ==> t.len() > 0 && t[0] == '-',
        start == 0 ==> !(t.len() > 0 && t[0] == '-'),
        start <= i < t.len(),
        all_digits(t.subrange(start, i)),
        spec_is_digit(t[i]),
        big <= digits_val(t.subrange(start, i)) * 10 + spec_digit_val(t[i]),
        big > u64::MAX as int,
    ensures
        spec_parse_i64(t) is None,
{
    let digits = t.skip(start);
    assert(start == 0 ==> digits =~= t);
    if spec_parse_i64(t) is Some {
        assert(all_digits(digits));
        let pre = t.subrange(start, i);
        let post = t.subrange(start, i + 1);
        assert(post.drop_last() =~= pre);
        assert(post.last() == t[i]);
        assert(digits_val(post) == digits_val(pre) * 10 + spec_digit_val(t[i]));
        assert(digits_val(post) >= big);
        assert(post =~= digits.take(i + 1 - start));
        lemma_dv_prefix(digits, i + 1 - start);
        assert(digits_val(digits) >= big);
        assert(digits_val(digits) > i64::MAX as int);
        assert(-digits_val(digits) < i64::MIN as int);
    }
}

} // verus!
