//! Character-level text operations with their mathematical meaning.
use vstd::prelude::*;

verus! {

/// The characters of `s`, in order.
pub fn chars_of(s: &str) -> (r: Vec<char>)
    ensures
        r@ == s@,
{
    let mut r: Vec<char> = Vec::new();
    for c in it: s.chars()
        invariant
            r@ == it.seq().take(it.index() as int),
            it.seq() == s@,
    {
        r.push(c);
    }
    r
}

/// Whether two texts are equal, character by character.
pub fn str_eq(a: &str, b: &str) -> (r: bool)
    ensures
        r == (a@ == b@),
{
    let x = chars_of(a);
    let y = chars_of(b);
    if x.len() != y.len() {
        return false;
    }
    let mut i: usize = 0;
    while i < x.len()
        invariant
            x@ == a@,
            y@ == b@,
            x.len() == y.len(),
            i <= x.len(),
            forall|j: int| 0 <= j < i ==> x@[j] == y@[j],
        decreases x.len() - i,
    {
        if x[i] != y[i] {
            return false;
        }
        i = i + 1;
    }
    assert(x@ =~= y@);
    true
}


/// `p` is a prefix of `s`.
pub open spec fn has_prefix(s: Seq<char>, p: Seq<char>) -> bool {
    p.len() <= s.len() && s.subrange(0, p.len() as int) == p
}

/// Whether `s` begins with `prefix`.
pub fn starts_with(s: &str, prefix: &str) -> (r: bool)
    ensures
        r == has_prefix(s@, prefix@),
{
    let x = chars_of(s);
    let p = chars_of(prefix);
    assert(x@.subrange(0, x@.len() as int) =~= x@);
    prefix_at(&x, 0, &p)
}

/// Whether `p` occurs in `x` at position `at`.
fn prefix_at(x: &Vec<char>, at: usize, p: &Vec<char>) -> (r: bool)
    requires
        at <= x.len(),
    ensures
        r == has_prefix(x@.subrange(at as int, x@.len() as int), p@),
{
    let ghost rest = x@.subrange(at as int, x@.len() as int);
    if p.len() > x.len() - at {
        return false;
    }
    let mut i: usize = 0;
    while i < p.len()
        invariant
            at + p.len() <= x.len(),
            rest == x@.subrange(at as int, x@.len() as int),
            i <= p.len(),
            forall|j: int| 0 <= j < i ==> x@[at + j] == p@[j],
        decreases p.len() - i,
    {
        if x[at + i] != p[i] {
            assert(rest.subrange(0, p.len() as int)[i as int] != p@[i as int]);
            return false;
        }
        i = i + 1;
    }
    assert(rest.subrange(0, p.len() as int) =~= p@);
    true
}

/// `s` with every leading occurrence of the pattern `p` removed; an empty
/// pattern removes nothing.
pub open spec fn strip_prefixes(s: Seq<char>, p: Seq<char>) -> Seq<char>
    decreases s.len(),
{
    if p.len() > 0 && has_prefix(s, p) {
        strip_prefixes(s.subrange(p.len() as int, s.len() as int), p)
    } else {
        s
    }
}

/// Removes every leading occurrence of `pattern`, as `str::trim_start_matches`
/// does; an empty pattern leaves `s` as it is.
pub fn trim_start_matches<'a>(s: &'a str, pattern: &str) -> (r: &'a str)
    ensures
        r@ == strip_prefixes(s@, pattern@),
{
    let x = chars_of(s);
    let p = chars_of(pattern);
    if p.len() == 0 {
        return s;
    }
    assert(x@.subrange(0, x@.len() as int) =~= x@);
    let mut i: usize = 0;
    while prefix_at(&x, i, &p)
        invariant
            x@ == s@,
            p@ == pattern@,
            p.len() > 0,
            i <= x.len(),
            strip_prefixes(s@, pattern@) == strip_prefixes(x@.subrange(i as int, x@.len() as int), p@),
        decreases x.len() - i,
    {
        let ghost rest = x@.subrange(i as int, x@.len() as int);
        assert(rest.subrange(p.len() as int, rest.len() as int) =~= x@.subrange(i + p.len(), x@.len() as int));
        i = i + p.len();
    }
    s.substring_char(i, x.len())
}

/// A Unicode `White_Space` character, as `char::is_whitespace` defines it.
pub open spec fn is_white_space(c: char) -> bool {
    let v = c as u32;
    ||| 0x9 <= v <= 0xd
    ||| v == 0x20
    ||| v == 0x85
    ||| v == 0xa0
    ||| v == 0x1680
    ||| 0x2000 <= v <= 0x200a
    ||| v == 0x2028
    ||| v == 0x2029
    ||| v == 0x202f
    ||| v == 0x205f
    ||| v == 0x3000
}

/// Whether `c` is a Unicode `White_Space` character.
pub fn white_space(c: char) -> (r: bool)
    ensures
        r == is_white_space(c),
{
    let v = c as u32;
    (0x9 <= v && v <= 0xd) || v == 0x20 || v == 0x85 || v == 0xa0 || v == 0x1680 || (0x2000
        <= v && v <= 0x200a) || v == 0x2028 || v == 0x2029 || v == 0x202f || v == 0x205f || v
        == 0x3000
}

/// `s` without its leading white space.
pub open spec fn trim_start_spec(s: Seq<char>) -> Seq<char>
    decreases s.len(),
{
    if s.len() > 0 && is_white_space(s[0]) {
        trim_start_spec(s.drop_first())
    } else {
        s
    }
}

/// `s` without its trailing white space.
pub open spec fn trim_end_spec(s: Seq<char>) -> Seq<char>
    decreases s.len(),
{
    if s.len() > 0 && is_white_space(s.last()) {
        trim_end_spec(s.drop_last())
    } else {
        s
    }
}

/// `s` without its leading and trailing white space.
pub open spec fn trim_spec(s: Seq<char>) -> Seq<char> {
    trim_end_spec(trim_start_spec(s))
}

/// Removes leading and trailing white space.
pub fn trim(s: &str) -> (r: &str)
    ensures
        r@ == trim_spec(s@),
{
    let x = chars_of(s);
    let n = x.len();
    assert(x@.subrange(0, n as int) =~= x@);
    let mut i: usize = 0;
    while i < n && white_space(x[i])
        invariant
            x@ == s@,
            n == x.len(),
            i <= n,
            trim_start_spec(s@) == trim_start_spec(x@.subrange(i as int, n as int)),
        decreases n - i,
    {
        assert(x@.subrange(i as int, n as int).drop_first() =~= x@.subrange(i + 1, n as int));
        i = i + 1;
    }
    assert(trim_start_spec(s@) == x@.subrange(i as int, n as int));
    let mut j: usize = n;
    while j > i && white_space(x[j - 1])
        invariant
            x@ == s@,
            n == x.len(),
            i <= j <= n,
            trim_spec(s@) == trim_end_spec(x@.subrange(i as int, j as int)),
        decreases j,
    {
        assert(x@.subrange(i as int, j as int).drop_last() =~= x@.subrange(i as int, j - 1));
        j = j - 1;
    }
    s.substring_char(i, j)
}

/// The splitting of `s` at white space after the word `cur` already begun:
/// the maximal runs of characters that are not white space.
pub open spec fn split_words(s: Seq<char>, cur: Seq<char>) -> Seq<Seq<char>>
    decreases s.len(),
{
    if s.len() == 0 {
        if cur.len() > 0 {
            seq![cur]
        } else {
            seq![]
        }
    } else if is_white_space(s[0]) {
        (if cur.len() > 0 {
            seq![cur]
        } else {
            seq![]
        }) + split_words(s.drop_first(), seq![])
    } else {
        split_words(s.drop_first(), cur.push(s[0]))
    }
}

/// The words of `s`: its maximal runs of characters that are not white space.
pub open spec fn words(s: Seq<char>) -> Seq<Seq<char>> {
    split_words(s, seq![])
}

/// Splits `s` at white space into its words, as `str::split_whitespace` does.
pub fn split_whitespace<'a>(s: &'a str) -> (r: Vec<&'a str>)
    ensures
        r@.len() == words(s@).len(),
        forall|k: int| 0 <= k < r@.len() ==> #[trigger] r@[k]@ == words(s@)[k],
{
    let x = chars_of(s);
    let n = x.len();
    let mut r: Vec<&'a str> = Vec::new();
    let ghost mut done: Seq<Seq<char>> = seq![];
    let mut start: usize = 0;
    let mut i: usize = 0;
    assert(x@.subrange(0, n as int) =~= x@);
    assert(x@.subrange(0, 0) =~= Seq::<char>::empty());
    assert(done + words(s@) =~= words(s@));
    while i < n
        invariant
            x@ == s@,
            n == x.len(),
            start <= i <= n,
            r@.len() == done.len(),
            forall|k: int| 0 <= k < r@.len() ==> #[trigger] r@[k]@ == done[k],
            words(s@) == done + split_words(x@.subrange(i as int, n as int), x@.subrange(start as int, i as int)),
        decreases n - i,
    {
        let ghost rest = x@.subrange(i as int, n as int);
        assert(rest.drop_first() =~= x@.subrange(i + 1, n as int));
        assert(rest[0] == x@[i as int]);
        if white_space(x[i]) {
            if start < i {
                let w = s.substring_char(start, i);
                r.push(w);
                proof {
                    done = done.push(x@.subrange(start as int, i as int));
                }
            }
            assert(words(s@) == done + split_words(x@.subrange(i + 1, n as int), seq![])) by {
                let cur = x@.subrange(start as int, i as int);
                if cur.len() > 0 {
                    assert(seq![cur] + split_words(rest.drop_first(), seq![]) =~= seq![cur].add(split_words(rest.drop_first(), seq![])));
                }
            }
            i = i + 1;
            start = i;
            assert(x@.subrange(start as int, i as int) =~= seq![]);
        } else {
            assert(x@.subrange(start as int, i as int).push(x@[i as int]) =~= x@.subrange(start as int, i + 1));
            i = i + 1;
        }
    }
    if start < n {
        let w = s.substring_char(start, n);
        r.push(w);
        proof {
            done = done.push(x@.subrange(start as int, n as int));
        }
    }
    assert(words(s@) =~= done);
    r
}


/// An ASCII decimal digit.
pub open spec fn is_digit(c: char) -> bool {
    48 <= (c as u32) <= 57
}

/// The number that the ASCII decimal digit `c` stands for.
pub open spec fn digit_value(c: char) -> nat {
    ((c as u32) - 48) as nat
}

/// The number that the decimal digits `d` stand for.
pub open spec fn digits_value(d: Seq<char>) -> nat
    decreases d.len(),
{
    if d.len() == 0 {
        0
    } else {
        digits_value(d.drop_last()) * 10 + digit_value(d.last())
    }
}

/// Every character of `d` is a decimal digit.
pub open spec fn all_digits(d: Seq<char>) -> bool {
    forall|i: int| 0 <= i < d.len() ==> is_digit(#[trigger] d[i])
}

/// `s` without one leading `+` sign.
pub open spec fn unsigned_digits(s: Seq<char>) -> Seq<char> {
    if s.len() > 0 && s[0] == '+' {
        s.drop_first()
    } else {
        s
    }
}

/// What `u32::from_str` accepts: an optional `+` followed by at least one
/// decimal digit and nothing else, whose value fits in a `u32`.
pub open spec fn parse_u32_spec(s: Seq<char>) -> Option<u32> {
    let d = unsigned_digits(s);
    if d.len() > 0 && all_digits(d) && digits_value(d) <= u32::MAX {
        Some(digits_value(d) as u32)
    } else {
        None
    }
}

/// Parses the decimal text of a `u32`, as `u32::from_str` does.
pub fn parse_u32(s: &str) -> (r: Option<u32>)
    ensures
        r == parse_u32_spec(s@),
{
    let x = chars_of(s);
    let n = x.len();
    let mut i: usize = 0;
    if n > 0 && x[0] == '+' {
        i = 1;
    }
    let ghost d = unsigned_digits(s@);
    assert(d =~= x@.subrange(i as int, n as int));
    if i >= n {
        return None;
    }
    let start = i;
    let mut acc: u64 = 0;
    let mut overflow = false;
    assert(x@.subrange(start as int, start as int) =~= Seq::<char>::empty());
    while i < n
        invariant
            x@ == s@,
            n == x.len(),
            start <= i <= n,
            d == x@.subrange(start as int, n as int),
            d == unsigned_digits(s@),
            forall|k: int| start <= k < i ==> is_digit(#[trigger] x@[k]),
            overflow ==> digits_value(x@.subrange(start as int, i as int)) > u32::MAX,
            !overflow ==> acc == digits_value(x@.subrange(start as int, i as int)),
            acc <= u32::MAX,
        decreases n - i,
    {
        let c = x[i];
        let v = c as u32;
        if v < 48 || v > 57 {
            assert(d[i - start] == c);
            assert(!is_digit(d[i - start]));
            return None;
        }
        let ghost prev = x@.subrange(start as int, i as int);
        let ghost next = x@.subrange(start as int, i + 1);
        assert(next.drop_last() =~= prev);
        assert(next.last() == c);
        assert(digits_value(next) == digits_value(prev) * 10 + digit_value(c));
        if !overflow {
            let t: u64 = acc * 10 + (v - 48) as u64;
            if t > 0xffff_ffff {
                overflow = true;
            } else {
                acc = t;
            }
        } else {
            assert(digits_value(prev) * 10 + digit_value(c) >= digits_value(prev)) by (nonlinear_arith);
        }
        i = i + 1;
    }
    assert(x@.subrange(start as int, n as int) == d);
    if overflow {
        None
    } else {
        Some(acc as u32)
    }
}

/// The decimal digit character for `d < 10`.
pub open spec fn digit_char(d: nat) -> char {
    (d + 48) as char
}

/// The decimal text of `n`, as `u32`'s `Display` writes it.
pub open spec fn decimal_spec(n: nat) -> Seq<char>
    decreases n,
{
    if n < 10 {
        seq![digit_char(n)]
    } else {
        decimal_spec(n / 10).push(digit_char(n % 10))
    }
}

fn digit_text(d: u32) -> (r: &'static str)
    requires
        d < 10,
    ensures
        r@ == seq![digit_char(d as nat)],
{
    proof {
        reveal_strlit("0");
        reveal_strlit("1");
        reveal_strlit("2");
        reveal_strlit("3");
        reveal_strlit("4");
        reveal_strlit("5");
        reveal_strlit("6");
        reveal_strlit("7");
        reveal_strlit("8");
        reveal_strlit("9");
    }
    match d {
        0 => "0",
        1 => "1",
        2 => "2",
        3 => "3",
        4 => "4",
        5 => "5",
        6 => "6",
        7 => "7",
        8 => "8",
        _ => "9",
    }
}

/// Writes `n` in decimal, as `n.to_string()` does.
pub fn decimal(n: u32) -> (r: String)
    ensures
        r@ == decimal_spec(n as nat),
    decreases n,
{
    if n < 10 {
        String::from_str(digit_text(n))
    } else {
        let mut r = decimal(n / 10);
        r.append(digit_text(n % 10));
        r
    }
}

/// The decimal text of `n` is all digits and stands for `n`.
pub proof fn lemma_decimal_digits(n: nat)
    ensures
        decimal_spec(n).len() > 0,
        forall|i: int| 0 <= i < decimal_spec(n).len() ==> is_digit(#[trigger] decimal_spec(n)[i]),
        digits_value(decimal_spec(n)) == n,
    decreases n,
{
    assert(digit_char(n % 10) as u32 == n % 10 + 48);
    if n < 10 {
        assert(decimal_spec(n).drop_last() =~= Seq::<char>::empty());
        assert(digit_char(n) as u32 == n + 48);
        assert(digits_value(decimal_spec(n)) == digits_value(Seq::<char>::empty()) * 10 + digit_value(digit_char(n)));
    } else {
        lemma_decimal_digits(n / 10);
        let s = decimal_spec(n);
        assert(s.drop_last() =~= decimal_spec(n / 10));
        assert(s.last() == digit_char(n % 10));
        assert(digit_value(s.last()) == n % 10);
        assert(digits_value(decimal_spec(n / 10)) == n / 10);
        assert(digits_value(s) == digits_value(decimal_spec(n / 10)) * 10 + n % 10);
        assert((n / 10) * 10 + n % 10 == n) by (nonlinear_arith);
    }
}

} // verus!
