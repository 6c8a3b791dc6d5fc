//! The data types that selection sources offer.

use crate::text::{begins_with, chars_of, starts_with};
use vstd::prelude::*;

verus! {

/// The text types that are offered and accepted, the best first; all mean the same
/// UTF-8 bytes.
pub open spec fn text_types() -> Seq<&'static str> {
    seq!["text/plain;charset=utf-8", "text/plain", "UTF8_STRING", "STRING", "TEXT"]
}

/// The text types that are offered and accepted, the best first.
pub fn text_mimes() -> (r: Vec<&'static str>)
    ensures
        r@ == text_types(),
{
    let mut r: Vec<&'static str> = Vec::new();
    r.push("text/plain;charset=utf-8");
    r.push("text/plain");
    r.push("UTF8_STRING");
    r.push("STRING");
    r.push("TEXT");
    assert(r@ =~= text_types());
    r
}

/// A character with ASCII capitals made small.
pub open spec fn small(c: char) -> char {
    if 'A' <= c <= 'Z' {
        (c as u32 + 32) as char
    } else {
        c
    }
}

/// The same text but for ASCII case.
pub open spec fn same_but_case(a: Seq<char>, b: Seq<char>) -> bool {
    a.len() == b.len() && forall|i: int| 0 <= i < a.len() ==> small(#[trigger] a[i]) == small(b[i])
}

fn lower(c: char) -> (r: char)
    ensures
        r == small(c),
{
    match c {
        'A' => 'a',
        'B' => 'b',
        'C' => 'c',
        'D' => 'd',
        'E' => 'e',
        'F' => 'f',
        'G' => 'g',
        'H' => 'h',
        'I' => 'i',
        'J' => 'j',
        'K' => 'k',
        'L' => 'l',
        'M' => 'm',
        'N' => 'n',
        'O' => 'o',
        'P' => 'p',
        'Q' => 'q',
        'R' => 'r',
        'S' => 's',
        'T' => 't',
        'U' => 'u',
        'V' => 'v',
        'W' => 'w',
        'X' => 'x',
        'Y' => 'y',
        'Z' => 'z',
        _ => c,
    }
}

fn equal_but_case(a: &str, b: &str) -> (r: bool)
    ensures
        r == same_but_case(a@, b@),
{
    let x = chars_of(a);
    let y = chars_of(b);
    if x.len() != y.len() {
        return false;
    }
    let mut i: usize = 0;
    while i < x.len()
        invariant
            i <= x@.len(),
            x@ == a@,
            y@ == b@,
            x@.len() == y@.len(),
            forall|j: int| 0 <= j < i ==> small(#[trigger] a@[j]) == small(b@[j]),
        decreases x@.len() - i,
    {
        if lower(x[i]) != lower(y[i]) {
            assert(small(a@[i as int]) != small(b@[i as int]));
            return false;
        }
        i = i + 1;
    }
    true
}

/// `i` is the first offered type that equals `pref` but for case.
pub open spec fn first_match(offered: Seq<String>, pref: Seq<char>) -> Option<int>
    decreases offered.len(),
{
    if offered.len() == 0 {
        None
    } else if first_match(offered.drop_last(), pref) is Some {
        first_match(offered.drop_last(), pref)
    } else if same_but_case(offered.last()@, pref) {
        Some(offered.len() - 1)
    } else {
        None
    }
}

/// The first offered type that is some text.
pub open spec fn first_text(offered: Seq<String>) -> Option<int>
    decreases offered.len(),
{
    if offered.len() == 0 {
        None
    } else if first_text(offered.drop_last()) is Some {
        first_text(offered.drop_last())
    } else if begins_with(offered.last()@, "text/"@) {
        Some(offered.len() - 1)
    } else {
        None
    }
}

/// The first of some preferred types that is offered.
pub open spec fn first_preferred(offered: Seq<String>, prefs: Seq<&'static str>) -> Option<int>
    decreases prefs.len(),
{
    if prefs.len() == 0 {
        None
    } else if first_match(offered, prefs[0]@) is Some {
        first_match(offered, prefs[0]@)
    } else {
        first_preferred(offered, prefs.skip(1))
    }
}

/// Which offered type text is pulled from: the best of the known text types, or else
/// the first other text type.
pub open spec fn picked(offered: Seq<String>) -> Option<int> {
    if first_preferred(offered, text_types()) is Some {
        first_preferred(offered, text_types())
    } else {
        first_text(offered)
    }
}

proof fn lemma_match_prefix(offered: Seq<String>, pref: Seq<char>, n: int)
    requires
        0 <= n <= offered.len(),
        first_match(offered.take(n), pref) is Some,
    ensures
        first_match(offered, pref) == first_match(offered.take(n), pref),
    decreases offered.len() - n,
{
    if n < offered.len() {
        assert(offered.take(n + 1).drop_last() =~= offered.take(n));
        lemma_match_prefix(offered, pref, n + 1);
    } else {
        assert(offered.take(n) =~= offered);
    }
}

proof fn lemma_text_prefix(offered: Seq<String>, n: int)
    requires
        0 <= n <= offered.len(),
        first_text(offered.take(n)) is Some,
    ensures
        first_text(offered) == first_text(offered.take(n)),
    decreases offered.len() - n,
{
    if n < offered.len() {
        assert(offered.take(n + 1).drop_last() =~= offered.take(n));
        lemma_text_prefix(offered, n + 1);
    } else {
        assert(offered.take(n) =~= offered);
    }
}

fn find_match(offered: &Vec<String>, pref: &str) -> (r: Option<usize>)
    ensures
        r is Some == first_match(offered@, pref@) is Some,
        r is Some ==> r->0 < offered@.len() && r->0 == first_match(offered@, pref@)->0,
{
    let mut i: usize = 0;
    while i < offered.len()
        invariant
            i <= offered@.len(),
            first_match(offered@.take(i as int), pref@) is None,
        decreases offered@.len() - i,
    {
        assert(offered@.take(i + 1).drop_last() =~= offered@.take(i as int));
        if equal_but_case(offered[i].as_str(), pref) {
            proof {
                lemma_match_prefix(offered@, pref@, i + 1);
            }
            return Some(i);
        }
        i = i + 1;
    }
    assert(offered@.take(i as int) =~= offered@);
    None
}

fn find_any_text(offered: &Vec<String>) -> (r: Option<usize>)
    ensures
        r is Some == first_text(offered@) is Some,
        r is Some ==> r->0 < offered@.len() && r->0 == first_text(offered@)->0,
{
    let mut i: usize = 0;
    while i < offered.len()
        invariant
            i <= offered@.len(),
            first_text(offered@.take(i as int)) is None,
        decreases offered@.len() - i,
    {
        assert(offered@.take(i + 1).drop_last() =~= offered@.take(i as int));
        if starts_with(offered[i].as_str(), "text/") {
            proof {
                lemma_text_prefix(offered@, i + 1);
            }
            return Some(i);
        }
        i = i + 1;
    }
    assert(offered@.take(i as int) =~= offered@);
    None
}

/// Picks the offered type that text is pulled from.
pub fn pick_text_mime(offered: &Vec<String>) -> (r: Option<String>)
    ensures
        r is Some == picked(offered@) is Some,
        r is Some ==> 0 <= picked(offered@)->0 < offered@.len() && r->0
            == offered@[picked(offered@)->0],
{
    let prefs = text_mimes();
    let mut i: usize = 0;
    assert(prefs@.skip(0) =~= prefs@);
    while i < prefs.len()
        invariant
            i <= prefs@.len(),
            prefs@ == text_types(),
            first_preferred(offered@, prefs@) == first_preferred(offered@, prefs@.skip(i as int)),
        decreases prefs@.len() - i,
    {
        if let Some(k) = find_match(offered, prefs[i]) {
            return Some(offered[k].clone());
        }
        assert(prefs@.skip(i as int).skip(1) =~= prefs@.skip(i + 1));
        i = i + 1;
    }
    match find_any_text(offered) {
        Some(k) => Some(offered[k].clone()),
        None => None,
    }
}

/// What is picked is text: a known text type, or one that says so.
pub proof fn lemma_picked_type_is_text(offered: Seq<String>)
    requires
        picked(offered) is Some,
    ensures
        0 <= picked(offered)->0 < offered.len(),
        begins_with(offered[picked(offered)->0]@, "text/"@) || exists|k: int|
            0 <= k < text_types().len() && same_but_case(
                offered[picked(offered)->0]@,
                (#[trigger] text_types()[k])@,
            ),
{
    if first_preferred(offered, text_types()) is Some {
        lemma_preferred(offered, text_types());
    } else {
        lemma_text(offered);
    }
}

proof fn lemma_preferred(offered: Seq<String>, prefs: Seq<&'static str>)
    requires
        first_preferred(offered, prefs) is Some,
    ensures
        0 <= first_preferred(offered, prefs)->0 < offered.len(),
        exists|k: int|
            0 <= k < prefs.len() && same_but_case(
                offered[first_preferred(offered, prefs)->0]@,
                (#[trigger] prefs[k])@,
            ),
    decreases prefs.len(),
{
    if first_match(offered, prefs[0]@) is Some {
        lemma_match(offered, prefs[0]@);
        assert(same_but_case(offered[first_preferred(offered, prefs)->0]@, prefs[0]@));
    } else {
        lemma_preferred(offered, prefs.skip(1));
        let k = choose|k: int|
            0 <= k < prefs.skip(1).len() && same_but_case(
                offered[first_preferred(offered, prefs)->0]@,
                (#[trigger] prefs.skip(1)[k])@,
            );
        assert(prefs[k + 1] == prefs.skip(1)[k]);
    }
}

proof fn lemma_match(offered: Seq<String>, pref: Seq<char>)
    requires
        first_match(offered, pref) is Some,
    ensures
        0 <= first_match(offered, pref)->0 < offered.len(),
        same_but_case(offered[first_match(offered, pref)->0]@, pref),
    decreases offered.len(),
{
    if first_match(offered.drop_last(), pref) is Some {
        lemma_match(offered.drop_last(), pref);
    }
}

proof fn lemma_text(offered: Seq<String>)
    requires
        first_text(offered) is Some,
    ensures
        0 <= first_text(offered)->0 < offered.len(),
        begins_with(offered[first_text(offered)->0]@, "text/"@),
    decreases offered.len(),
{
    if first_text(offered.drop_last()) is Some {
        lemma_text(offered.drop_last());
    }
}

/// The types that sources offer: pairs of source and type, in the order in which they
/// were offered.
pub struct MimeTable {
    entries: Vec<(u64, String)>,
}

/// The pair belongs to another source.
pub open spec fn of_other(source: u64) -> spec_fn((u64, String)) -> bool {
    |e: (u64, String)| e.0 != source
}

/// The types of one source, in order.
pub open spec fn types_of(entries: Seq<(u64, String)>, source: u64) -> Seq<String>
    decreases entries.len(),
{
    if entries.len() == 0 {
        Seq::empty()
    } else if entries.last().0 == source {
        types_of(entries.drop_last(), source).push(entries.last().1)
    } else {
        types_of(entries.drop_last(), source)
    }
}

impl View for MimeTable {
    type V = Seq<(u64, String)>;

    closed spec fn view(&self) -> Seq<(u64, String)> {
        self.entries@
    }
}

impl MimeTable {
    /// No types yet.
    pub fn new() -> (t: Self)
        ensures
            t@ == Seq::<(u64, String)>::empty(),
    {
        MimeTable { entries: Vec::new() }
    }

    /// A source offers a type.
    pub fn offer(&mut self, source: u64, mime: String)
        ensures
            final(self)@ == old(self)@.push((source, mime)),
    {
        self.entries.push((source, mime));
    }

    /// The types of a source.
    pub fn of(&self, source: u64) -> (r: Vec<String>)
        ensures
            r@ == types_of(self@, source),
    {
        let mut r: Vec<String> = Vec::new();
        let mut i: usize = 0;
        while i < self.entries.len()
            invariant
                i <= self.entries@.len(),
                r@ == types_of(self.entries@.take(i as int), source),
            decreases self.entries@.len() - i,
        {
            assert(self.entries@.take(i + 1).drop_last() =~= self.entries@.take(i as int));
            if self.entries[i].0 == source {
                r.push(self.entries[i].1.clone());
            }
            i = i + 1;
        }
        assert(self.entries@.take(i as int) =~= self.entries@);
        r
    }

    /// Forgets a source's types.
    pub fn forget(&mut self, source: u64)
        ensures
            final(self)@ == old(self)@.filter(of_other(source)),
    {
        let mut kept: Vec<(u64, String)> = Vec::new();
        let ghost all = self.entries@;
        let mut i: usize = 0;
        while i < self.entries.len()
            invariant
                i <= self.entries@.len(),
                *self == *old(self),
                all == self.entries@,
                kept@ == all.take(i as int).filter(of_other(source)),
            decreases self.entries@.len() - i,
        {
            let s: u64 = self.entries[i].0;
            let m: String = self.entries[i].1.clone();
            proof {
                assert(all[i as int] == (s, m));
                assert(all.take(i + 1) =~= all.take(i as int).push((s, m)));
                all.take(i as int).lemma_filter_push((s, m), of_other(source));
            }
            if s != source {
                kept.push((s, m));
            }
            i = i + 1;
        }
        assert(all.take(i as int) =~= all);
        self.entries = kept;
    }
}

/// A type that a source offers is the last of that source's types, and no other source's.
pub proof fn lemma_offered_type_is_listed(
    entries: Seq<(u64, String)>,
    source: u64,
    mime: String,
    other: u64,
)
    requires
        other != source,
    ensures
        types_of(entries.push((source, mime)), source) == types_of(entries, source).push(mime),
        types_of(entries.push((source, mime)), other) == types_of(entries, other),
        types_of(Seq::empty(), source) == Seq::<String>::empty(),
{
    let all = entries.push((source, mime));
    assert(all.drop_last() =~= entries);
    assert(all.last() == (source, mime));
}

/// A source that is forgotten has no types; every other keeps its own.
pub proof fn lemma_forgotten_types(entries: Seq<(u64, String)>, source: u64, other: u64)
    requires
        other != source,
    ensures
        types_of(entries.filter(of_other(source)), source) == Seq::<String>::empty(),
        types_of(entries.filter(of_other(source)), other) == types_of(entries, other),
    decreases entries.len(),
{
    if entries.len() > 0 {
        let rest = entries.drop_last();
        let e = entries.last();
        lemma_forgotten_types(rest, source, other);
        assert(entries =~= rest.push(e));
        rest.lemma_filter_push(e, of_other(source));
        if e.0 != source {
            lemma_offered_type_is_listed(
                rest.filter(of_other(source)),
                e.0,
                e.1,
                if e.0 == other {
                    source
                } else {
                    other
                },
            );
            let kept = rest.filter(of_other(source)).push(e);
            assert(kept.drop_last() =~= rest.filter(of_other(source)));
        }
    } else {
        assert(entries.filter(of_other(source)) =~= entries) by {
            reveal(Seq::filter);
        }
    }
}

/// Text is pulled as the best known type that is offered: where a type is offered that is
/// known, none better than it is passed over; among equals it is the first that was
/// offered.
pub proof fn lemma_best_type_is_picked(offered: Seq<String>, k: int)
    requires
        0 <= k < text_types().len(),
        exists|j: int|
            0 <= j < offered.len() && same_but_case((#[trigger] offered[j])@, text_types()[k]@),
        forall|m: int, j: int|
            0 <= m < k && 0 <= j < offered.len() ==> !same_but_case(
                (#[trigger] offered[j])@,
                (#[trigger] text_types()[m])@,
            ),
    ensures
        ({
            let i = picked(offered)->0;
            &&& picked(offered) is Some
            &&& 0 <= i < offered.len()
            &&& same_but_case(offered[i]@, text_types()[k]@)
            &&& forall|j: int|
                0 <= j < i ==> !same_but_case((#[trigger] offered[j])@, text_types()[k]@)
        }),
{
    lemma_best_of(offered, text_types(), k);
}

proof fn lemma_best_of(offered: Seq<String>, prefs: Seq<&'static str>, k: int)
    requires
        0 <= k < prefs.len(),
        exists|j: int|
            0 <= j < offered.len() && same_but_case((#[trigger] offered[j])@, prefs[k]@),
        forall|m: int, j: int|
            0 <= m < k && 0 <= j < offered.len() ==> !same_but_case(
                (#[trigger] offered[j])@,
                (#[trigger] prefs[m])@,
            ),
    ensures
        ({
            let i = first_preferred(offered, prefs)->0;
            &&& first_preferred(offered, prefs) is Some
            &&& 0 <= i < offered.len()
            &&& same_but_case(offered[i]@, prefs[k]@)
            &&& forall|j: int|
                0 <= j < i ==> !same_but_case((#[trigger] offered[j])@, prefs[k]@)
        }),
    decreases prefs.len(),
{
    lemma_first_match_is_first(offered, prefs[0]@);
    if k > 0 {
        let rest = prefs.skip(1);
        assert(rest[k - 1] == prefs[k]);
        assert(forall|m: int| 0 <= m < k - 1 ==> #[trigger] rest[m] == prefs[m + 1]);
        if first_match(offered, prefs[0]@) is Some {
            let i = first_match(offered, prefs[0]@)->0;
            assert(same_but_case(offered[i]@, prefs[0]@));
        }
        assert forall|m: int, j: int| 0 <= m < k - 1 && 0 <= j < offered.len() implies !same_but_case(
            (#[trigger] offered[j])@,
            (#[trigger] rest[m])@,
        ) by {
            assert(rest[m] == prefs[m + 1]);
        }
        lemma_best_of(offered, rest, k - 1);
    }
}

proof fn lemma_first_match_is_first(offered: Seq<String>, pref: Seq<char>)
    ensures
        match first_match(offered, pref) {
            Some(i) => 0 <= i < offered.len() && same_but_case(offered[i]@, pref) && forall|j: int|
                0 <= j < i ==> !same_but_case((#[trigger] offered[j])@, pref),
            None => forall|j: int|
                0 <= j < offered.len() ==> !same_but_case((#[trigger] offered[j])@, pref),
        },
    decreases offered.len(),
{
    if offered.len() > 0 {
        let rest = offered.drop_last();
        lemma_first_match_is_first(rest, pref);
        assert(forall|j: int| 0 <= j < rest.len() ==> #[trigger] offered[j] == rest[j]);
        assert(offered[offered.len() - 1] == offered.last());
    }
}

/// Where no known type is offered, text is pulled as the first type that is some text, and
/// where there is none, not at all.
pub proof fn lemma_other_text_is_picked(offered: Seq<String>)
    requires
        forall|m: int, j: int|
            0 <= m < text_types().len() && 0 <= j < offered.len() ==> !same_but_case(
                (#[trigger] offered[j])@,
                (#[trigger] text_types()[m])@,
            ),
    ensures
        match picked(offered) {
            Some(i) => 0 <= i < offered.len() && begins_with(offered[i]@, "text/"@) && forall|j: int|
                0 <= j < i ==> !begins_with((#[trigger] offered[j])@, "text/"@),
            None => forall|j: int|
                0 <= j < offered.len() ==> !begins_with((#[trigger] offered[j])@, "text/"@),
        },
{
    if first_preferred(offered, text_types()) is Some {
        lemma_preferred(offered, text_types());
        let i = first_preferred(offered, text_types())->0;
        let k = choose|k: int|
            0 <= k < text_types().len() && same_but_case(
                offered[i]@,
                (#[trigger] text_types()[k])@,
            );
        assert(!same_but_case(offered[i]@, text_types()[k]@));
    }
    lemma_first_text_is_first(offered);
}

proof fn lemma_first_text_is_first(offered: Seq<String>)
    ensures
        match first_text(offered) {
            Some(i) => 0 <= i < offered.len() && begins_with(offered[i]@, "text/"@) && forall|j: int|
                0 <= j < i ==> !begins_with((#[trigger] offered[j])@, "text/"@),
            None => forall|j: int|
                0 <= j < offered.len() ==> !begins_with((#[trigger] offered[j])@, "text/"@),
        },
    decreases offered.len(),
{
    if offered.len() > 0 {
        let rest = offered.drop_last();
        lemma_first_text_is_first(rest);
        assert(forall|j: int| 0 <= j < rest.len() ==> #[trigger] offered[j] == rest[j]);
        assert(offered[offered.len() - 1] == offered.last());
    }
}

/// One of the offered types is this one, but for case.
pub open spec fn offers(offered: Seq<String>, mime: Seq<char>) -> bool {
    exists|j: int| 0 <= j < offered.len() && same_but_case((#[trigger] offered[j])@, mime)
}

/// Plain text in UTF-8 is pulled wherever it is offered, else plain text, else the types
/// of X11, the one for UTF-8 first.
pub proof fn lemma_utf8_comes_first(offered: Seq<String>)
    ensures
        ({
            let utf8 = offers(offered, "text/plain;charset=utf-8"@);
            let plain = offers(offered, "text/plain"@);
            let x_utf8 = offers(offered, "UTF8_STRING"@);
            let x_string = offers(offered, "STRING"@);
            let mime = offered[picked(offered)->0]@;
            &&& utf8 ==> picked(offered) is Some && same_but_case(mime, "text/plain;charset=utf-8"@)
            &&& !utf8 && plain ==> picked(offered) is Some && same_but_case(mime, "text/plain"@)
            &&& !utf8 && !plain && x_utf8 ==> picked(offered) is Some && same_but_case(
                mime,
                "UTF8_STRING"@,
            )
            &&& !utf8 && !plain && !x_utf8 && x_string ==> picked(offered) is Some && same_but_case(
                mime,
                "STRING"@,
            )
            &&& !utf8 && !plain && !x_utf8 && !x_string && offers(offered, "TEXT"@) ==> picked(
                offered,
            ) is Some && same_but_case(mime, "TEXT"@)
        }),
{
    let types = text_types();
    assert(types[0] == "text/plain;charset=utf-8" && types[1] == "text/plain" && types[2]
        == "UTF8_STRING" && types[3] == "STRING" && types[4] == "TEXT");
    if offers(offered, types[0]@) {
        lemma_best_type_is_picked(offered, 0);
    } else if offers(offered, types[1]@) {
        lemma_best_type_is_picked(offered, 1);
    } else if offers(offered, types[2]@) {
        lemma_best_type_is_picked(offered, 2);
    } else if offers(offered, types[3]@) {
        lemma_best_type_is_picked(offered, 3);
    } else if offers(offered, types[4]@) {
        lemma_best_type_is_picked(offered, 4);
    }
}

/// Letters that differ in case alone count as the same, and nothing else does.
pub proof fn lemma_case_does_not_count(a: char, b: char)
    requires
        a != b,
        a as u32 <= b as u32,
    ensures
        small(a) == small(b) <==> 'A' <= a <= 'Z' && b as u32 == a as u32 + 32,
{
}

} // verus!
