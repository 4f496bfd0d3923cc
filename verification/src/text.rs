//! Character-level text helpers.
use vstd::prelude::*;
use vstd::std_specs::iter::IteratorSpec;

verus! {

broadcast use vstd::string::group_string_axioms;

/// The characters of `s`, in order.
pub fn str_chars(s: &str) -> (res: Vec<char>)
    ensures
        res@ == s@,
{
    let mut it = s.chars();
    let mut out: Vec<char> = Vec::new();
    loop
        invariant
            out@ + it.remaining() == s@,
        ensures
            out@ == s@,
        decreases s@.len() - out@.len(),
    {
        match it.next() {
            Some(c) => {
                out.push(c);
                assert(out@ + it.remaining() =~= s@);
            },
            None => {
                assert(out@ =~= s@);
                break ;
            },
        }
    }
    out
}

/// Number of characters of `s`.
pub fn char_count(s: &str) -> (res: usize)
    ensures
        res == s@.len(),
{
    str_chars(s).len()
}

/// `String::push`: appends `c` to the end of `s`.
#[verifier::external_body]
fn string_push(s: &mut String, c: char)
    ensures
        final(s)@ == old(s)@.push(c),
{
    s.push(c);
}

/// A string made of `chars`, in order.
pub fn string_from_chars(chars: &Vec<char>) -> (res: String)
    ensures
        res@ == chars@,
{
    let mut out = String::new();
    let n = chars.len();
    let mut i: usize = 0;
    while i < n
        invariant
            n == chars@.len(),
            i <= n,
            out@ == chars@.take(i as int),
        decreases n - i,
    {
        string_push(&mut out, chars[i]);
        assert(chars@.take(i + 1) =~= chars@.take(i as int).push(chars@[i as int]));
        i = i + 1;
    }
    assert(chars@.take(n as int) =~= chars@);
    out
}

/// `pattern` is non-empty and `s` begins with it.
pub open spec fn starts_with(s: Seq<char>, pattern: Seq<char>) -> bool {
    0 < pattern.len() <= s.len() && s.take(pattern.len() as int) == pattern
}

/// `template` with its placeholders filled in one pass from left to right:
/// each occurrence of `first` becomes `first_value`, each occurrence of
/// `second` becomes `second_value`; inserted values are not searched
/// again.
pub open spec fn fill_spec(
    template: Seq<char>,
    first: Seq<char>,
    first_value: Seq<char>,
    second: Seq<char>,
    second_value: Seq<char>,
) -> Seq<char>
    decreases template.len(),
{
    if template.len() == 0 {
        Seq::<char>::empty()
    } else if starts_with(template, first) {
        first_value + fill_spec(
            template.skip(first.len() as int),
            first,
            first_value,
            second,
            second_value,
        )
    } else if starts_with(template, second) {
        second_value + fill_spec(
            template.skip(second.len() as int),
            first,
            first_value,
            second,
            second_value,
        )
    } else {
        seq![template[0]] + fill_spec(template.skip(1), first, first_value, second, second_value)
    }
}

/// Append all of `chars`.
pub fn append_chars(out: &mut Vec<char>, chars: &Vec<char>)
    ensures
        final(out)@ == old(out)@ + chars@,
{
    let n = chars.len();
    let mut k: usize = 0;
    while k < n
        invariant
            n == chars@.len(),
            k <= n,
            out@ == old(out)@ + chars@.take(k as int),
        decreases n - k,
    {
        out.push(chars[k]);
        assert(chars@.take(k + 1) =~= chars@.take(k as int).push(chars@[k as int]));
        k = k + 1;
    }
    assert(chars@.take(n as int) =~= chars@);
}

/// Whether `pattern` occurs in `s` at position `at`.
fn occurs_at(s: &Vec<char>, at: usize, pattern: &Vec<char>) -> (res: bool)
    requires
        at + pattern@.len() <= s@.len(),
    ensures
        res == (s@.subrange(at as int, at + pattern@.len()) == pattern@),
{
    let m = pattern.len();
    let sl = s.len();
    let mut k: usize = 0;
    while k < m
        invariant
            m == pattern@.len(),
            sl == s@.len(),
            at + m <= s@.len(),
            k <= m,
            forall|j: int| 0 <= j < k ==> s@[at + j] == pattern@[j],
        decreases m - k,
    {
        if s[at + k] != pattern[k] {
            assert(s@.subrange(at as int, at + m)[k as int] != pattern@[k as int]);
            return false;
        }
        k = k + 1;
    }
    assert(s@.subrange(at as int, at + m) =~= pattern@);
    true
}

/// Whether the non-empty `pattern` occurs in `s` at `at`.
fn starts_at(s: &Vec<char>, at: usize, pattern: &Vec<char>) -> (res: bool)
    requires
        at <= s@.len(),
    ensures
        res == starts_with(s@.skip(at as int), pattern@),
{
    let n = s.len();
    let m = pattern.len();
    if m == 0 || m > n - at {
        return false;
    }
    let found = occurs_at(s, at, pattern);
    assert(s@.skip(at as int).take(m as int) =~= s@.subrange(at as int, at + m));
    found
}

/// `template` with the placeholders `first` and `second` filled in one
/// pass, left to right, without searching the inserted values again.
pub fn fill_template(
    template: &str,
    first: &str,
    first_value: &str,
    second: &str,
    second_value: &str,
) -> (res: String)
    ensures
        res@ == fill_spec(template@, first@, first_value@, second@, second_value@),
{
    let t = str_chars(template);
    let p1 = str_chars(first);
    let v1 = str_chars(first_value);
    let p2 = str_chars(second);
    let v2 = str_chars(second_value);
    let ghost fill = |x: Seq<char>| fill_spec(x, p1@, v1@, p2@, v2@);
    let n = t.len();
    let mut out: Vec<char> = Vec::new();
    let mut i: usize = 0;
    assert(t@.skip(0) =~= t@);
    assert(out@ + fill(t@) =~= fill(t@));
    while i < n
        invariant
            t@ == template@,
            p1@ == first@,
            v1@ == first_value@,
            p2@ == second@,
            v2@ == second_value@,
            fill == (|x: Seq<char>| fill_spec(x, p1@, v1@, p2@, v2@)),
            n == t@.len(),
            i <= n,
            out@ + fill(t@.skip(i as int)) == fill(t@),
        decreases n - i,
    {
        let ghost rest = t@.skip(i as int);
        let ghost before = out@;
        if starts_at(&t, i, &p1) {
            let m = p1.len();
            assert(rest.skip(m as int) =~= t@.skip(i + m));
            append_chars(&mut out, &v1);
            assert(before + (v1@ + fill(t@.skip(i + m))) =~= out@ + fill(t@.skip(i + m)));
            i = i + m;
        } else if starts_at(&t, i, &p2) {
            let m = p2.len();
            assert(rest.skip(m as int) =~= t@.skip(i + m));
            append_chars(&mut out, &v2);
            assert(before + (v2@ + fill(t@.skip(i + m))) =~= out@ + fill(t@.skip(i + m)));
            i = i + m;
        } else {
            assert(rest.skip(1) =~= t@.skip(i + 1));
            out.push(t[i]);
            assert(before + (seq![rest[0]] + fill(t@.skip(i + 1))) =~= out@ + fill(
                t@.skip(i + 1),
            ));
            i = i + 1;
        }
    }
    assert(t@.skip(n as int) =~= Seq::<char>::empty());
    assert(out@ + fill(Seq::<char>::empty()) =~= out@);
    string_from_chars(&out)
}

/// The decimal digit character for `d`, which is below ten.
pub open spec fn digit_char(d: nat) -> char {
    if d == 0 {
        '0'
    } else if d == 1 {
        '1'
    } else if d == 2 {
        '2'
    } else if d == 3 {
        '3'
    } else if d == 4 {
        '4'
    } else if d == 5 {
        '5'
    } else if d == 6 {
        '6'
    } else if d == 7 {
        '7'
    } else if d == 8 {
        '8'
    } else {
        '9'
    }
}

/// The decimal digits of `n`, most significant first, without leading
/// zeros.
pub open spec fn decimal_digits(n: nat) -> Seq<char>
    decreases n,
{
    if n < 10 {
        seq![digit_char(n)]
    } else {
        decimal_digits(n / 10).push(digit_char(n % 10))
    }
}

/// The decimal notation of `n`: its digits, after a minus sign when it is
/// negative.
pub open spec fn decimal_string(n: int) -> Seq<char> {
    if n < 0 {
        seq!['-'] + decimal_digits((-n) as nat)
    } else {
        decimal_digits(n as nat)
    }
}

fn digit_to_char(d: u64) -> (res: char)
    requires
        d < 10,
    ensures
        res == digit_char(d as nat),
{
    if d == 0 {
        '0'
    } else if d == 1 {
        '1'
    } else if d == 2 {
        '2'
    } else if d == 3 {
        '3'
    } else if d == 4 {
        '4'
    } else if d == 5 {
        '5'
    } else if d == 6 {
        '6'
    } else if d == 7 {
        '7'
    } else if d == 8 {
        '8'
    } else {
        '9'
    }
}

/// `n` written in decimal, as `i64::to_string` writes it.
pub fn i64_to_decimal(n: i64) -> (res: String)
    ensures
        res@ == decimal_string(n as int),
{
    let magnitude: u64 = if n < 0 {
        (0i128 - n as i128) as u64
    } else {
        n as u64
    };
    let mut digits: Vec<char> = Vec::new();
    let mut m: u64 = magnitude;
    while m >= 10
        invariant
            decimal_digits(magnitude as nat) == decimal_digits(m as nat) + digits@,
        decreases m,
    {
        let ghost before = digits@;
        digits.insert(0, digit_to_char(m % 10));
        assert(decimal_digits(m as nat) == decimal_digits((m / 10) as nat).push(
            digit_char((m % 10) as nat),
        ));
        assert(decimal_digits(m as nat) + before =~= decimal_digits((m / 10) as nat) + digits@);
        m = m / 10;
    }
    let ghost before = digits@;
    digits.insert(0, digit_to_char(m));
    assert(decimal_digits(magnitude as nat) =~= digits@);
    if n < 0 {
        digits.insert(0, '-');
    }
    string_from_chars(&digits)
}

} // verus!
