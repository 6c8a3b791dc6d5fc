//! Small operations on text.

use vstd::prelude::*;
use vstd::string::*;

verus! {

/// `s` begins with `p`.
pub open spec fn begins_with(s: Seq<char>, p: Seq<char>) -> bool {
    p.len() <= s.len() && s.take(p.len() as int) == p
}

/// `s` ends with `p`.
pub open spec fn ends_in(s: Seq<char>, p: Seq<char>) -> bool {
    p.len() <= s.len() && s.skip(s.len() - p.len()) == p
}

/// The characters of a text.
pub fn chars_of(s: &str) -> (v: Vec<char>)
    ensures
        v@ == s@,
{
    let mut v: Vec<char> = Vec::new();
    for c in it: s.chars()
        invariant
            it.seq() == s@,
            v@ == s@.take(it.index() as int),
    {
        v.push(c);
        assert(s@.take(it.index() + 1) =~= s@.take(it.index() as int).push(c));
    }
    assert(s@.take(s@.len() as int) =~= s@);
    v
}

/// Whether `part` stands in `whole` at place `at`.
pub fn matches_at(whole: &Vec<char>, at: usize, part: &Vec<char>) -> (b: bool)
    requires
        at <= whole@.len(),
    ensures
        b == begins_with(whole@.skip(at as int), part@),
{
    let n: usize = whole.len();
    if part.len() > n - at {
        return false;
    }
    let mut i: usize = 0;
    while i < part.len()
        invariant
            i <= part@.len(),
            at + part@.len() <= whole@.len() == n,
            forall|j: int| 0 <= j < i ==> whole@[at + j] == part@[j],
        decreases part@.len() - i,
    {
        if whole[at + i] != part[i] {
            assert(whole@.skip(at as int).take(part@.len() as int)[i as int] != part@[i as int]);
            return false;
        }
        i = i + 1;
    }
    assert(whole@.skip(at as int).take(part@.len() as int) =~= part@);
    true
}

/// Whether `s` begins with `p`.
pub fn starts_with(s: &str, p: &str) -> (b: bool)
    ensures
        b == begins_with(s@, p@),
{
    let whole = chars_of(s);
    let part = chars_of(p);
    assert(whole@.skip(0) =~= s@);
    matches_at(&whole, 0, &part)
}

/// Whether two texts are equal.
pub fn same_text(a: &str, b: &str) -> (r: bool)
    ensures
        r == (a@ == b@),
{
    let x = chars_of(a);
    let y = chars_of(b);
    assert(x@.skip(0) =~= a@);
    assert(a@.take(a@.len() as int) =~= a@);
    x.len() == y.len() && matches_at(&x, 0, &y)
}

/// `s` without the first `n` characters.
pub fn text_from<'a>(s: &'a str, n: usize) -> (r: &'a str)
    requires
        n <= s@.len(),
    ensures
        r@ == s@.skip(n as int),
{
    let len: usize = s.unicode_len();
    let r = s.substring_char(n, len);
    assert(r@ =~= s@.skip(n as int));
    r
}

/// The rest of `s` behind the prefix `p`.
pub fn strip_prefix<'a>(s: &'a str, p: &str) -> (r: Option<&'a str>)
    ensures
        r is Some == begins_with(s@, p@),
        r is Some ==> r->0@ == s@.skip(p@.len() as int),
{
    if starts_with(s, p) {
        Some(text_from(s, p.unicode_len()))
    } else {
        None
    }
}

/// What comes before the suffix `p` of `s`.
pub fn strip_suffix<'a>(s: &'a str, p: &str) -> (r: Option<&'a str>)
    ensures
        r is Some == ends_in(s@, p@),
        r is Some ==> r->0@ == s@.take(s@.len() - p@.len()),
{
    let n: usize = s.unicode_len();
    let k: usize = p.unicode_len();
    if k > n {
        return None;
    }
    let whole = chars_of(s);
    let part = chars_of(p);
    proof {
        let tail = s@.skip(n - k);
        assert(tail.take(k as int) =~= tail);
    }
    if matches_at(&whole, n - k, &part) {
        let r = s.substring_char(0, n - k);
        assert(r@ =~= s@.take(n - k));
        Some(r)
    } else {
        None
    }
}

/// The decimal digits of a number.
pub open spec fn digits(n: nat) -> Seq<char>
    decreases n,
{
    if n < 10 {
        seq![digit(n as int)]
    } else {
        digits(n / 10).push(digit(n as int % 10))
    }
}

/// The character of a digit.
pub open spec fn digit(d: int) -> char {
    if d == 0 {
        '0'
    } else if d == 1 {
        '1'
    } else if d == 2 {
        '2'
    } else if d == 3 {
        '3'
    } else if d == 4 {
        '4'
    } else if d == 5 {
        '5'
    } else if d == 6 {
        '6'
    } else if d == 7 {
        '7'
    } else if d == 8 {
        '8'
    } else {
        '9'
    }
}

fn digit_text(d: u32) -> (r: &'static str)
    requires
        d < 10,
    ensures
        r@ == seq![digit(d as int)],
{
    proof {
        reveal_strlit("0");
        reveal_strlit("1");
        reveal_strlit("2");
        reveal_strlit("3");
        reveal_strlit("4");
        reveal_strlit("5");
        reveal_strlit("6");
        reveal_strlit("7");
        reveal_strlit("8");
        reveal_strlit("9");
    }
    let r = match d {
        0 => "0",
        1 => "1",
        2 => "2",
        3 => "3",
        4 => "4",
        5 => "5",
        6 => "6",
        7 => "7",
        8 => "8",
        _ => "9",
    };
    assert(r@ =~= seq![digit(d as int)]);
    r
}

/// A number in decimal.
pub fn decimal(n: u32) -> (r: String)
    ensures
        r@ == digits(n as nat),
    decreases n,
{
    if n < 10 {
        String::from_str(digit_text(n))
    } else {
        let mut r: String = decimal(n / 10);
        r.append(digit_text(n % 10));
        assert(r@ =~= digits(n as nat / 10).push(digit(n as int % 10)));
        r
    }
}

/// Two texts, one behind the other.
pub fn join(a: &str, b: &str) -> (r: String)
    ensures
        r@ == a@ + b@,
{
    let mut r: String = String::from_str(a);
    r.append(b);
    r
}

/// The character is white space.
pub open spec fn is_white(c: char) -> bool {
    let u = c as u32;
    (0x9 <= u <= 0xd) || u == 0x20 || u == 0x85 || u == 0xa0 || u == 0x1680 || (0x2000 <= u
        <= 0x200a) || u == 0x2028 || u == 0x2029 || u == 0x202f || u == 0x205f || u == 0x3000
}

fn white(c: char) -> (b: bool)
    ensures
        b == is_white(c),
{
    let u: u32 = c as u32;
    (0x9 <= u && u <= 0xd) || u == 0x20 || u == 0x85 || u == 0xa0 || u == 0x1680 || (0x2000 <= u
        && u <= 0x200a) || u == 0x2028 || u == 0x2029 || u == 0x202f || u == 0x205f || u == 0x3000
}

/// Without the white space at the end.
pub open spec fn trimmed_end(s: Seq<char>) -> Seq<char>
    decreases s.len(),
{
    if s.len() > 0 && is_white(s.last()) {
        trimmed_end(s.drop_last())
    } else {
        s
    }
}

/// Without the white space at the start.
pub open spec fn trimmed_start(s: Seq<char>) -> Seq<char>
    decreases s.len(),
{
    if s.len() > 0 && is_white(s[0]) {
        trimmed_start(s.skip(1))
    } else {
        s
    }
}

/// Without the white space at both ends.
pub open spec fn trimmed(s: Seq<char>) -> Seq<char> {
    trimmed_end(trimmed_start(s))
}

/// Removes the white space at both ends.
pub fn trim<'a>(s: &'a str) -> (r: &'a str)
    ensures
        r@ == trimmed(s@),
{
    let chars = chars_of(s);
    let n: usize = chars.len();
    let mut from: usize = 0;
    assert(s@.skip(0) =~= s@);
    while from < n && white(chars[from])
        invariant
            from <= n == chars@.len(),
            chars@ == s@,
            trimmed_start(s@) == trimmed_start(s@.skip(from as int)),
        decreases n - from,
    {
        assert(s@.skip(from as int).skip(1) =~= s@.skip(from + 1));
        from = from + 1;
    }
    let ghost t = s@.skip(from as int);
    assert(trimmed_start(s@) == t);
    let mut to: usize = n;
    assert(t.take(n - from) =~= t);
    while to > from && white(chars[to - 1])
        invariant
            from <= to <= n == chars@.len(),
            chars@ == s@,
            t == s@.skip(from as int),
            trimmed_end(t) == trimmed_end(t.take(to - from)),
        decreases to,
    {
        assert(t.take(to - from).last() == s@[to - 1]);
        assert(t.take(to - from).drop_last() =~= t.take(to - from - 1));
        to = to - 1;
    }
    proof {
        if to > from {
            assert(t.take(to - from).last() == s@[to - 1]);
        }
    }
    let r = s.substring_char(from, to);
    assert(r@ =~= t.take(to - from));
    r
}

/// What a trimmed text begins and ends with is no white space, and trimming it again
/// changes nothing.
pub proof fn lemma_trimmed(s: Seq<char>)
    ensures
        trimmed(s).len() > 0 ==> !is_white(trimmed(s)[0]) && !is_white(trimmed(s).last()),
        trimmed(trimmed(s)) == trimmed(s),
{
    lemma_trimmed_start(s);
    lemma_trimmed_end(trimmed_start(s));
    let t = trimmed(s);
    if t.len() > 0 {
        assert(t[0] == trimmed_start(s)[0]);
    }
}

proof fn lemma_trimmed_start(s: Seq<char>)
    ensures
        trimmed_start(s).len() > 0 ==> !is_white(trimmed_start(s)[0]),
    decreases s.len(),
{
    if s.len() > 0 && is_white(s[0]) {
        lemma_trimmed_start(s.skip(1));
    }
}

proof fn lemma_trimmed_end(s: Seq<char>)
    ensures
        trimmed_end(s).len() > 0 ==> !is_white(trimmed_end(s).last()),
        trimmed_end(s).len() <= s.len(),
        trimmed_end(s) == s.take(trimmed_end(s).len() as int),
        trimmed_end(trimmed_end(s)) == trimmed_end(s),
    decreases s.len(),
{
    if s.len() > 0 && is_white(s.last()) {
        lemma_trimmed_end(s.drop_last());
        assert(s.drop_last().take(trimmed_end(s).len() as int) =~= s.take(
            trimmed_end(s).len() as int,
        ));
    } else {
        assert(s.take(s.len() as int) =~= s);
    }
}

/// What stands behind the last full stop.
pub open spec fn after_last_dot(s: Seq<char>) -> Seq<char>
    decreases s.len(),
{
    if s.len() == 0 {
        s
    } else if s.last() == '.' {
        Seq::empty()
    } else {
        after_last_dot(s.drop_last()).push(s.last())
    }
}

/// The part of a dotted name behind its last full stop, such as "German" of
/// "com.apple.keylayout.German".
pub fn last_component<'a>(id: &'a str) -> (r: &'a str)
    ensures
        r@ == after_last_dot(id@),
{
    let chars = chars_of(id);
    let n: usize = chars.len();
    let mut i: usize = n;
    proof {
        assert(id@.take(n as int) =~= id@);
        assert(id@.skip(n as int) =~= Seq::<char>::empty());
        assert(after_last_dot(id@) =~= after_last_dot(id@.take(n as int)) + id@.skip(n as int));
    }
    while i > 0 && chars[i - 1] != '.'
        invariant
            i <= n,
            n == chars@.len(),
            chars@ == id@,
            after_last_dot(id@) == after_last_dot(id@.take(i as int)) + id@.skip(i as int),
        decreases i,
    {
        proof {
            let t = id@.take(i as int);
            assert(t.drop_last() =~= id@.take(i - 1));
            assert(id@.skip(i - 1) =~= seq![t.last()] + id@.skip(i as int));
            assert(after_last_dot(t) + id@.skip(i as int) =~= after_last_dot(id@.take(i - 1))
                + id@.skip(i - 1));
        }
        i = i - 1;
    }
    proof {
        let t = id@.take(i as int);
        assert(after_last_dot(t) =~= Seq::<char>::empty());
        assert(after_last_dot(t) + id@.skip(i as int) =~= id@.skip(i as int));
    }
    text_from(id, i)
}

/// The character is a decimal digit.
pub open spec fn is_digit(c: char) -> bool {
    '0' <= c <= '9'
}

/// The value of a row of decimal digits.
pub open spec fn value_of(s: Seq<char>) -> int
    decreases s.len(),
{
    if s.len() == 0 {
        0
    } else {
        value_of(s.drop_last()) * 10 + (s.last() as u32 - '0' as u32)
    }
}

/// One or more decimal digits and nothing else.
pub open spec fn all_digits(s: Seq<char>) -> bool {
    s.len() > 0 && forall|i: int| 0 <= i < s.len() ==> is_digit(#[trigger] s[i])
}

/// The number that a text stands for: an optional sign, then digits; none where it is
/// anything else or does not fit.
pub open spec fn parsed_i32(s: Seq<char>) -> Option<i32> {
    let negative = s.len() > 0 && s[0] == '-';
    let rest = if s.len() > 0 && (s[0] == '-' || s[0] == '+') {
        s.skip(1)
    } else {
        s
    };
    let v = if negative {
        -value_of(rest)
    } else {
        value_of(rest)
    };
    if all_digits(rest) && i32::MIN <= v <= i32::MAX {
        Some(v as i32)
    } else {
        None
    }
}

proof fn lemma_value_grows(s: Seq<char>, n: int)
    requires
        0 <= n <= s.len(),
        forall|i: int| 0 <= i < s.len() ==> is_digit(#[trigger] s[i]),
    ensures
        0 <= value_of(s.take(n)) <= value_of(s),
    decreases s.len() - n,
{
    lemma_value_is_positive(s.take(n));
    if n < s.len() {
        lemma_value_grows(s, n + 1);
        assert(s.take(n + 1).drop_last() =~= s.take(n));
        assert(is_digit(s[n]));
    } else {
        assert(s.take(n) =~= s);
    }
}

proof fn lemma_value_is_positive(s: Seq<char>)
    requires
        forall|i: int| 0 <= i < s.len() ==> is_digit(#[trigger] s[i]),
    ensures
        0 <= value_of(s),
    decreases s.len(),
{
    if s.len() > 0 {
        assert forall|i: int| 0 <= i < s.drop_last().len() implies is_digit(
            #[trigger] s.drop_last()[i],
        ) by {
            assert(is_digit(s[i]));
        }
        lemma_value_is_positive(s.drop_last());
        assert(is_digit(s[s.len() - 1]));
    }
}

/// Reads a number.
pub fn parse_i32(s: &str) -> (r: Option<i32>)
    ensures
        r == parsed_i32(s@),
{
    let chars = chars_of(s);
    let n: usize = chars.len();
    if n == 0 {
        return None;
    }
    let negative: bool = chars[0] == '-';
    let from: usize = if chars[0] == '-' || chars[0] == '+' { 1 } else { 0 };
    let ghost rest = if from == 1 {
        s@.skip(1)
    } else {
        s@
    };
    assert(rest =~= s@.skip(from as int));
    if from == n {
        return None;
    }
    let mut v: i64 = 0;
    let mut i: usize = from;
    assert(rest.take(0) =~= Seq::<char>::empty());
    while i < n
        invariant
            from <= i <= n == chars@.len(),
            from <= 1,
            chars@ == s@,
            rest == s@.skip(from as int),
            rest == if s@.len() > 0 && (s@[0] == '-' || s@[0] == '+') {
                s@.skip(1)
            } else {
                s@
            },
            0 <= v <= 0x8000_0000,
            v == value_of(rest.take(i - from)),
            negative == (s@.len() > 0 && s@[0] == '-'),
            forall|j: int| 0 <= j < i - from ==> is_digit(#[trigger] rest[j]),
        decreases n - i,
    {
        let c: char = chars[i];
        assert(rest[i - from] == c);
        if c < '0' || c > '9' {
            assert(!is_digit(rest[i - from]));
            return None;
        }
        let d: i64 = (c as u32 - '0' as u32) as i64;
        proof {
            assert(rest.take(i - from + 1).drop_last() =~= rest.take(i - from));
            assert(rest.take(i - from + 1).last() == c);
        }
        v = v * 10 + d;
        if v > 0x8000_0000 {
            proof {
                if all_digits(rest) {
                    lemma_value_grows(rest, i - from + 1);
                }
            }
            return None;
        }
        i = i + 1;
    }
    assert(rest.take(n - from) =~= rest);
    assert(all_digits(rest));
    if negative {
        Some((-v) as i32)
    } else if v > 0x7fff_ffff {
        None
    } else {
        Some(v as i32)
    }
}

/// What follows the last full stop of a dotted name is its last part; a name without one
/// is its own last part.
pub proof fn lemma_last_part_follows_the_dot(before: Seq<char>, part: Seq<char>)
    requires
        forall|i: int| 0 <= i < part.len() ==> (#[trigger] part[i]) != '.',
    ensures
        after_last_dot(before + seq!['.'] + part) == part,
        after_last_dot(part) == part,
    decreases part.len(),
{
    let all = before + seq!['.'] + part;
    if part.len() == 0 {
        assert(all.last() == '.');
        assert(part =~= Seq::<char>::empty());
    } else {
        let rest = part.drop_last();
        assert forall|i: int| 0 <= i < rest.len() implies (#[trigger] rest[i]) != '.' by {
            assert(part[i] != '.');
        }
        lemma_last_part_follows_the_dot(before, rest);
        assert(part[part.len() - 1] != '.');
        assert(all.drop_last() =~= before + seq!['.'] + rest);
        assert(all.last() == part.last());
        assert(rest.push(part.last()) =~= part);
    }
}

/// Reading a number undoes writing it.
pub proof fn lemma_reading_undoes_writing(n: nat)
    ensures
        all_digits(digits(n)),
        value_of(digits(n)) == n,
        n <= i32::MAX ==> parsed_i32(digits(n)) == Some(n as i32),
        n <= i32::MAX ==> parsed_i32(seq!['-'] + digits(n)) == Some((-(n as int)) as i32),
    decreases n,
{
    let s = digits(n);
    reveal_with_fuel(value_of, 2);
    if n >= 10 {
        lemma_reading_undoes_writing(n / 10);
        let d = digit(n as int % 10);
        assert(s.drop_last() =~= digits(n / 10));
        assert(s.last() == d);
        assert forall|i: int| 0 <= i < s.len() implies is_digit(#[trigger] s[i]) by {
            if i < s.len() - 1 {
                assert(s[i] == digits(n / 10)[i]);
            }
        }
    } else {
        assert(s.drop_last() =~= Seq::<char>::empty());
    }
    assert(is_digit(s[0]));
    let m = seq!['-'] + s;
    assert(m[0] == '-');
    assert(m.skip(1) =~= s);
}

/// Trimming takes nothing but white space away, from the ends alone.
pub proof fn lemma_trimming_takes_white_space_only(s: Seq<char>)
    ensures
        s.len() > 0 && !is_white(s[0]) && !is_white(s.last()) ==> trimmed(s) == s,
        (forall|i: int| 0 <= i < s.len() ==> is_white(#[trigger] s[i])) ==> trimmed(s) == Seq::<
            char,
        >::empty(),
        s.len() > 0 && is_white(s[0]) ==> trimmed(s) == trimmed(s.skip(1)),
{
    if forall|i: int| 0 <= i < s.len() ==> is_white(#[trigger] s[i]) {
        lemma_white_is_trimmed(s);
    }
}

proof fn lemma_white_is_trimmed(s: Seq<char>)
    requires
        forall|i: int| 0 <= i < s.len() ==> is_white(#[trigger] s[i]),
    ensures
        trimmed_start(s) == Seq::<char>::empty(),
    decreases s.len(),
{
    if s.len() > 0 {
        let t = s.skip(1);
        assert forall|i: int| 0 <= i < t.len() implies is_white(#[trigger] t[i]) by {
            assert(is_white(s[i + 1]));
        }
        assert(is_white(s[0]));
        lemma_white_is_trimmed(t);
    } else {
        assert(s =~= Seq::<char>::empty());
    }
}

} // verus!
