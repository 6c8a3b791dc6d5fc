//! Names that are made up for applications and tokens, and what is announced to
//! clients.

use crate::text::{
    after_last_dot, chars_of, decimal, digits, join, last_component, same_text, text_from, trim,
    trimmed,
};
use vstd::prelude::*;
use vstd::string::*;

verus! {

/// The uppercase mapping of a character.
pub uninterp spec fn uppercase(c: char) -> Seq<char>;

/// `char::to_uppercase`: the uppercase mapping of `c`, one or more characters, under
/// the name `uppercase`.
#[verifier::external_body]
fn upper(c: char) -> (r: String)
    ensures
        r@ == uppercase(c),
{
    c.to_uppercase().to_string()
}

/// A character that may stand in a file name: the separators become hyphens.
pub open spec fn file_char(c: char) -> char {
    if c == '/' || c == '\0' || c == ':' {
        '-'
    } else {
        c
    }
}

/// A name as a file name: no separators, no white space at the ends, at most 64
/// characters, and never empty.
pub open spec fn file_name(raw: Seq<char>) -> Seq<char> {
    let cleaned = trimmed(raw.map_values(|c: char| file_char(c)));
    if cleaned.len() == 0 {
        "wayland-macos"@
    } else if cleaned.len() <= 64 {
        cleaned
    } else {
        cleaned.take(64)
    }
}

/// The name that an application goes by: the last part of its id, its first character
/// replaced by `head`, or the title, or a fallback.
pub open spec fn raw_name(app_id: Seq<char>, title: Seq<char>, head: Seq<char>) -> Seq<char> {
    if app_id.len() > 0 {
        let last = after_last_dot(app_id);
        if last.len() > 0 {
            head + last.skip(1)
        } else {
            app_id
        }
    } else if title.len() > 0 && title != "Wayland Window"@ {
        title
    } else {
        "wayland-macos"@
    }
}

/// What an application's first character becomes; nothing where there is none.
pub open spec fn head_of(app_id: Seq<char>) -> Seq<char> {
    if after_last_dot(app_id).len() > 0 {
        uppercase(after_last_dot(app_id)[0])
    } else {
        Seq::empty()
    }
}

fn file_chars(raw: &str) -> (r: String)
    ensures
        r@ == raw@.map_values(|c: char| file_char(c)),
{
    let chars = chars_of(raw);
    let mut r: String = String::new();
    let mut i: usize = 0;
    proof {
        reveal_strlit("-");
    }
    while i < chars.len()
        invariant
            i <= chars@.len(),
            chars@ == raw@,
            "-"@.len() == 1,
            "-"@[0] == '-',
            r@ == raw@.take(i as int).map_values(|c: char| file_char(c)),
        decreases chars@.len() - i,
    {
        let c: char = chars[i];
        let ghost before = r@;
        if c == '/' || c == '\0' || c == ':' {
            r.append("-");
        } else {
            r.append(raw.substring_char(i, i + 1));
        }
        assert(raw@.take(i + 1).map_values(|c: char| file_char(c)) =~= before.push(file_char(c)));
        assert(r@ =~= before.push(file_char(c)));
        i = i + 1;
    }
    assert(raw@.take(i as int) =~= raw@);
    r
}

/// The name of an application, given what its first character becomes.
pub fn display_name_with(app_id: &str, title: &str, head: &str) -> (r: String)
    ensures
        r@ == file_name(raw_name(app_id@, title@, head@)),
{
    let raw: String = if app_id.unicode_len() > 0 {
        let last = last_component(app_id);
        if last.unicode_len() > 0 {
            join(head, text_from(last, 1))
        } else {
            String::from_str(app_id)
        }
    } else if title.unicode_len() > 0 && !same_text(title, "Wayland Window") {
        String::from_str(title)
    } else {
        String::from_str("wayland-macos")
    };
    let safe: String = file_chars(raw.as_str());
    let cleaned: &str = trim(safe.as_str());
    let n: usize = cleaned.unicode_len();
    if n == 0 {
        String::from_str("wayland-macos")
    } else if n <= 64 {
        String::from_str(cleaned)
    } else {
        let short = cleaned.substring_char(0, 64);
        assert(short@ =~= cleaned@.take(64));
        String::from_str(short)
    }
}

/// The name of an application in the Dock: the last part of its id, capitalized, or
/// else the window's title, or else a fallback. It can stand as a file name.
pub fn app_display_name(app_id: &str, title: &str) -> (r: String)
    ensures
        r@ == file_name(raw_name(app_id@, title@, head_of(app_id@))),
{
    let last = last_component(app_id);
    let head: String = if last.unicode_len() > 0 {
        upper(last.get_char(0))
    } else {
        String::new()
    };
    assert(head@ =~= head_of(app_id@));
    display_name_with(app_id, title, head.as_str())
}

/// The text of the token of a serial.
pub open spec fn token(serial: u32) -> Seq<char> {
    "wlmac-"@ + digits(serial as nat)
}

/// The token that a serial stands for.
pub fn activation_token(serial: u32) -> (r: String)
    ensures
        r@ == token(serial),
{
    let d = decimal(serial);
    join("wlmac-", d.as_str())
}

/// A name never holds a path separator and is never empty, so it stays one part of a
/// path.
pub proof fn lemma_file_name_is_one_path_component(raw: Seq<char>)
    ensures
        0 < file_name(raw).len() <= 64,
        forall|i: int|
            0 <= i < file_name(raw).len() ==> (#[trigger] file_name(raw)[i]) != '/'
                && file_name(raw)[i] != '\0' && file_name(raw)[i] != ':',
{
    reveal_strlit("wayland-macos");
    let safe = raw.map_values(|c: char| file_char(c));
    lemma_trimmed_chars(safe);
    let cleaned = trimmed(safe);
    assert forall|i: int| 0 <= i < cleaned.len() implies (#[trigger] cleaned[i]) != '/'
        && cleaned[i] != '\0' && cleaned[i] != ':' by {
        assert(safe.contains(cleaned[i]));
        let j = choose|j: int| 0 <= j < safe.len() && safe[j] == cleaned[i];
        assert(safe[j] == file_char(raw[j]));
    }
}

proof fn lemma_trimmed_chars(s: Seq<char>)
    ensures
        forall|i: int| 0 <= i < trimmed(s).len() ==> s.contains(#[trigger] trimmed(s)[i]),
{
    lemma_start_chars(s);
    lemma_end_chars(crate::text::trimmed_start(s));
    assert forall|i: int| 0 <= i < trimmed(s).len() implies s.contains(#[trigger] trimmed(s)[i]) by {
        let t = crate::text::trimmed_start(s);
        assert(t.contains(trimmed(s)[i]));
        let j = choose|j: int| 0 <= j < t.len() && t[j] == trimmed(s)[i];
        assert(s.contains(t[j]));
    }
}

proof fn lemma_start_chars(s: Seq<char>)
    ensures
        forall|i: int|
            0 <= i < crate::text::trimmed_start(s).len() ==> s.contains(
                #[trigger] crate::text::trimmed_start(s)[i],
            ),
    decreases s.len(),
{
    if s.len() > 0 && crate::text::is_white(s[0]) {
        lemma_start_chars(s.skip(1));
        assert forall|i: int| 0 <= i < crate::text::trimmed_start(s).len() implies s.contains(
            #[trigger] crate::text::trimmed_start(s)[i],
        ) by {
            let c = crate::text::trimmed_start(s)[i];
            assert(crate::text::trimmed_start(s.skip(1))[i] == c);
            assert(s.skip(1).contains(c));
            let j = choose|j: int| 0 <= j < s.skip(1).len() && s.skip(1)[j] == c;
            assert(s[j + 1] == c);
        }
    }
}

proof fn lemma_end_chars(s: Seq<char>)
    ensures
        forall|i: int|
            0 <= i < crate::text::trimmed_end(s).len() ==> s.contains(
                #[trigger] crate::text::trimmed_end(s)[i],
            ),
    decreases s.len(),
{
    if s.len() > 0 && crate::text::is_white(s.last()) {
        lemma_end_chars(s.drop_last());
        assert forall|i: int| 0 <= i < crate::text::trimmed_end(s).len() implies s.contains(
            #[trigger] crate::text::trimmed_end(s)[i],
        ) by {
            let c = crate::text::trimmed_end(s)[i];
            assert(crate::text::trimmed_end(s.drop_last())[i] == c);
            assert(s.drop_last().contains(c));
            let j = choose|j: int| 0 <= j < s.drop_last().len() && s.drop_last()[j] == c;
            assert(s[j] == c);
        }
    }
}

/// An application goes by the last part of its id with another first character, whatever
/// its title; without an id by its title, unless that is the one that every window starts
/// with; and else by a name that is always there.
pub proof fn lemma_id_comes_before_title(
    before: Seq<char>,
    first: char,
    rest: Seq<char>,
    title: Seq<char>,
    head: Seq<char>,
)
    requires
        first != '.',
        forall|i: int| 0 <= i < rest.len() ==> (#[trigger] rest[i]) != '.',
    ensures
        raw_name(before + seq!['.'] + (seq![first] + rest), title, head) == head + rest,
        raw_name(seq![first] + rest, title, head) == head + rest,
        head_of(before + seq!['.'] + (seq![first] + rest)) == uppercase(first),
        title.len() > 0 && title != "Wayland Window"@ ==> raw_name(Seq::empty(), title, head)
            == title,
        raw_name(Seq::empty(), "Wayland Window"@, head) == "wayland-macos"@,
        raw_name(Seq::empty(), Seq::empty(), head) == "wayland-macos"@,
{
    let part = seq![first] + rest;
    assert forall|i: int| 0 <= i < part.len() implies (#[trigger] part[i]) != '.' by {
        if i > 0 {
            assert(part[i] == rest[i - 1]);
        }
    }
    crate::text::lemma_last_part_follows_the_dot(before, part);
    assert(part.skip(1) =~= rest);
    assert(part[0] == first);
}

/// A name that can stand as it is does.
pub proof fn lemma_plain_name_stays(raw: Seq<char>)
    requires
        0 < raw.len() <= 64,
        !crate::text::is_white(raw[0]),
        !crate::text::is_white(raw.last()),
        forall|i: int|
            0 <= i < raw.len() ==> (#[trigger] raw[i]) != '/' && raw[i] != ':' && raw[i] != '\0',
    ensures
        file_name(raw) == raw,
{
    assert(raw.map_values(|c: char| file_char(c)) =~= raw);
    crate::text::lemma_trimming_takes_white_space_only(raw);
}

/// Different serials stand for different tokens.
pub proof fn lemma_tokens_are_distinct(a: u32, b: u32)
    requires
        token(a) == token(b),
    ensures
        a == b,
{
    let p = "wlmac-"@;
    let da = digits(a as nat);
    let db = digits(b as nat);
    crate::text::lemma_reading_undoes_writing(a as nat);
    crate::text::lemma_reading_undoes_writing(b as nat);
    assert((p + da).len() == p.len() + da.len());
    assert((p + db).len() == p.len() + db.len());
    assert forall|i: int| 0 <= i < da.len() implies da[i] == db[i] by {
        assert((p + da)[p.len() + i] == da[i]);
        assert((p + db)[p.len() + i] == db[i]);
    }
    assert(da =~= db);
}

} // verus!
