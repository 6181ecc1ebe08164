//! Finding the installed font family that a terminal's configured font name
//! stands for.

use vstd::prelude::*;
use crate::session::{lower_case, to_lowercase};
use crate::text::{chars_of, string_of, starts_with, starts_with_chars, chars_equal, trim, trim_chars, is_white_space, is_whitespace};
use crate::source::{text_lines, source_lines};

verus! {

/// A character's code with ASCII capitals folded to small letters.
pub open spec fn ascii_fold(c: char) -> u32 {
    if 65 <= (c as u32) <= 90 {
        (c as u32 + 32) as u32
    } else {
        c as u32
    }
}

/// Whether two texts are equal when ASCII letters are compared without case.
pub open spec fn same_ignoring_ascii_case(a: Seq<char>, b: Seq<char>) -> bool {
    a.len() == b.len() && forall|i: int| 0 <= i < a.len() ==> ascii_fold(#[trigger] a[i]) == ascii_fold(b[i])
}

/// Compares two texts, ASCII letters without case (std's `str::eq_ignore_ascii_case`).
pub fn eq_ignore_ascii_case(a: &Vec<char>, b: &Vec<char>) -> (r: bool)
    ensures
        r == same_ignoring_ascii_case(a@, b@),
{
    if a.len() != b.len() {
        return false;
    }
    let mut i: usize = 0;
    while i < a.len()
        invariant
            i <= a.len(),
            a.len() == b.len(),
            forall|k: int| 0 <= k < i ==> ascii_fold(#[trigger] a@[k]) == ascii_fold(b@[k]),
        decreases a.len() - i,
    {
        let x = a[i] as u32;
        let y = b[i] as u32;
        let fx = if 65 <= x && x <= 90 { x + 32 } else { x };
        let fy = if 65 <= y && y <= 90 { y + 32 } else { y };
        if fx != fy {
            return false;
        }
        i = i + 1;
    }
    true
}

/// A text with every occurrence of `pat` taken out, from left to right
/// (std's `str::replace` with an empty replacement).
pub open spec fn remove_all(s: Seq<char>, pat: Seq<char>) -> Seq<char>
    decreases s.len(),
{
    if pat.len() == 0 || s.len() < pat.len() {
        s
    } else if s.take(pat.len() as int) == pat {
        remove_all(s.skip(pat.len() as int), pat)
    } else {
        seq![s[0]] + remove_all(s.skip(1), pat)
    }
}

/// Takes every occurrence of `pat` out of `s`.
pub fn remove_all_of(s: &Vec<char>, pat: &Vec<char>) -> (r: Vec<char>)
    ensures
        r@ == remove_all(s@, pat@),
{
    let mut out: Vec<char> = Vec::new();
    if pat.len() == 0 {
        let mut k: usize = 0;
        while k < s.len()
            invariant
                k <= s.len(),
                out@ == s@.take(k as int),
            decreases s.len() - k,
        {
            out.push(s[k]);
            proof {
                assert(s@.take(k + 1) =~= s@.take(k as int).push(s@[k as int]));
            }
            k = k + 1;
        }
        proof {
            assert(s@.take(s.len() as int) =~= s@);
        }
        return out;
    }
    let mut i: usize = 0;
    proof {
        assert(s@.skip(0) =~= s@);
    }
    while i < s.len()
        invariant
            i <= s.len(),
            pat.len() > 0,
            out@ + remove_all(s@.skip(i as int), pat@) == remove_all(s@, pat@),
        decreases s.len() - i,
    {
        let ghost rest = s@.skip(i as int);
        if pat.len() <= s.len() - i && crate::text::matches_at(s, pat, i) {
            proof {
                assert(rest.take(pat.len() as int) =~= s@.subrange(i as int, i + pat.len()));
                assert(rest.skip(pat.len() as int) =~= s@.skip(i + pat.len()));
            }
            i = i + pat.len();
        } else {
            proof {
                if rest.len() >= pat.len() {
                    assert(rest.take(pat.len() as int) =~= s@.subrange(i as int, i + pat.len()));
                }
                assert(rest.skip(1) =~= s@.skip(i + 1));
                assert(out@.push(s@[i as int]) + remove_all(s@.skip(i + 1), pat@) =~= out@ + (seq![rest[0]] + remove_all(rest.skip(1), pat@)));
            }
            out.push(s[i]);
            i = i + 1;
        }
    }
    proof {
        assert(s@.skip(i as int) =~= Seq::<char>::empty());
        assert(out@ + Seq::<char>::empty() =~= out@);
    }
    out
}

/// The first index of a family that satisfies `p`.
pub open spec fn first_where(fams: Seq<Seq<char>>, p: spec_fn(Seq<char>) -> bool) -> Option<int>
    decreases fams.len(),
{
    if fams.len() == 0 {
        None
    } else if p(fams[0]) {
        Some(0)
    } else {
        match first_where(fams.drop_first(), p) {
            Some(i) => Some(i + 1),
            None => None,
        }
    }
}

/// A font name made plain: small letters, without the usual suffixes of
/// patched and monospaced variants (" nerd font mono", " nerd font", " nf",
/// " mono").
pub open spec fn plain_font_name(name: Seq<char>) -> Seq<char> {
    remove_all(
        remove_all(remove_all(remove_all(lower_case(name), " nerd font mono"@), " nerd font"@), " nf"@),
        " mono"@,
    )
}

/// A text without its spaces.
pub open spec fn without_spaces(s: Seq<char>) -> Seq<char> {
    remove_all(s, seq![' '])
}

/// Whether a family's small-letter name is the font name's plain name, or
/// equal to it once spaces are dropped.
pub open spec fn names_plainly(f: Seq<char>, name: Seq<char>) -> bool {
    lower_case(f) == plain_font_name(name) || without_spaces(lower_case(f)) == without_spaces(plain_font_name(name))
}

/// Whether a family's small-letter name without spaces begins with the font
/// name's plain name without spaces.
pub open spec fn begins_plainly(f: Seq<char>, name: Seq<char>) -> bool {
    starts_with(without_spaces(lower_case(f)), without_spaces(plain_font_name(name)))
}

/// The family a font name stands for among the installed families, in
/// their order: the first equal to it but for ASCII case; else the first
/// that `names_plainly` it; else the first that `begins_plainly` with it;
/// else the name itself.
pub open spec fn chosen_family(fams: Seq<Seq<char>>, name: Seq<char>) -> Seq<char> {
    match first_where(fams, |f: Seq<char>| same_ignoring_ascii_case(f, name)) {
        Some(i) => fams[i],
        None => match first_where(fams, |f: Seq<char>| names_plainly(f, name)) {
            Some(i) => fams[i],
            None => match first_where(fams, |f: Seq<char>| begins_plainly(f, name)) {
                Some(i) => fams[i],
                None => name,
            },
        },
    }
}

/// `first_where` finds the first family that satisfies the test.
pub proof fn lemma_first_where(fams: Seq<Seq<char>>, p: spec_fn(Seq<char>) -> bool, i: int)
    requires
        0 <= i <= fams.len(),
        forall|k: int| 0 <= k < i ==> !p(#[trigger] fams[k]),
    ensures
        i < fams.len() && p(fams[i]) ==> first_where(fams, p) == Some(i),
        i == fams.len() ==> first_where(fams, p) is None,
    decreases i,
{
    if fams.len() > 0 && i > 0 {
        let rest = fams.drop_first();
        assert forall|k: int| 0 <= k < i - 1 implies !p(#[trigger] rest[k]) by {
            assert(rest[k] == fams[k + 1]);
        }
        assert(!p(fams[0]));
        lemma_first_where(rest, p, i - 1);
        if i < fams.len() {
            assert(rest[i - 1] == fams[i]);
        }
    }
}

/// The installed family (given in order) that a font name stands for, as
/// `chosen_family` says.
pub fn match_font_family(families: &Vec<String>, name: &str) -> (r: String)
    ensures
        r@ == chosen_family(families@.map_values(|f: String| f@), name@),
{
    let ghost fams = families@.map_values(|f: String| f@);
    let ghost p1 = |f: Seq<char>| same_ignoring_ascii_case(f, name@);
    let name_chars = chars_of(name);
    let mut i: usize = 0;
    while i < families.len()
        invariant
            i <= families.len(),
            fams == families@.map_values(|f: String| f@),
            name_chars@ == name@,
            p1 == (|f: Seq<char>| same_ignoring_ascii_case(f, name@)),
            forall|k: int| 0 <= k < i ==> !p1(#[trigger] fams[k]),
        decreases families.len() - i,
    {
        let f = chars_of(families[i].as_str());
        if eq_ignore_ascii_case(&f, &name_chars) {
            proof {
                lemma_first_where(fams, p1, i as int);
            }
            return crate::text::copy_string(&families[i]);
        }
        i = i + 1;
    }
    proof {
        lemma_first_where(fams, p1, i as int);
    }
    let lowered = to_lowercase(name);
    let lowered_chars = chars_of(lowered.as_str());
    let a = remove_all_of(&lowered_chars, &chars_of(" nerd font mono"));
    let b = remove_all_of(&a, &chars_of(" nerd font"));
    let c = remove_all_of(&b, &chars_of(" nf"));
    let plain = remove_all_of(&c, &chars_of(" mono"));
    let space: Vec<char> = vec![' '];
    proof {
        assert(space@ =~= seq![' ']);
    }
    let key = remove_all_of(&plain, &space);
    let ghost p2 = |f: Seq<char>| names_plainly(f, name@);
    let ghost p3 = |f: Seq<char>| begins_plainly(f, name@);
    let mut best: Option<usize> = None;
    let mut j: usize = 0;
    while j < families.len()
        invariant
            j <= families.len(),
            fams == families@.map_values(|f: String| f@),
            plain@ == plain_font_name(name@),
            key@ == without_spaces(plain_font_name(name@)),
            space@ == seq![' '],
            p2 == (|f: Seq<char>| names_plainly(f, name@)),
            p3 == (|f: Seq<char>| begins_plainly(f, name@)),
            first_where(fams, |f: Seq<char>| same_ignoring_ascii_case(f, name@)) is None,
            forall|k: int| 0 <= k < j ==> !p2(#[trigger] fams[k]),
            match best {
                Some(b) => b < j && p3(fams[b as int]) && forall|k: int| 0 <= k < b ==> !p3(#[trigger] fams[k]),
                None => forall|k: int| 0 <= k < j ==> !p3(#[trigger] fams[k]),
            },
        decreases families.len() - j,
    {
        let fam = families[j].as_str();
        let fam_lower = to_lowercase(fam);
        let fl = chars_of(fam_lower.as_str());
        let fns = remove_all_of(&fl, &space);
        proof {
            assert(fams[j as int] == families@[j as int]@);
            assert(fam@ == families@[j as int]@);
            assert(fl@ == lower_case(fams[j as int]));
            assert(fns@ == without_spaces(lower_case(fams[j as int])));
        }
        if chars_equal(&fl, &plain) || chars_equal(&fns, &key) {
            proof {
                assert(p2(fams[j as int]));
                lemma_first_where(fams, p2, j as int);
            }
            return crate::text::copy_string(&families[j]);
        }
        if best.is_none() && starts_with_chars(&fns, &key) {
            proof {
                assert(p3(fams[j as int]));
            }
            best = Some(j);
        }
        j = j + 1;
    }
    proof {
        lemma_first_where(fams, p2, j as int);
    }
    match best {
        Some(b) => {
            proof {
                lemma_first_where(fams, p3, b as int);
            }
            crate::text::copy_string(&families[b])
        },
        None => {
            proof {
                lemma_first_where(fams, p3, j as int);
            }
            string_of(name_chars.as_slice())
        },
    }
}

// ── The font named in a terminal's configuration ──────────────────────────
/// The position of the first character of `s` that satisfies `p`.
pub open spec fn first_pos(s: Seq<char>, p: spec_fn(char) -> bool) -> Option<int>
    decreases s.len(),
{
    if s.len() == 0 {
        None
    } else if p(s[0]) {
        Some(0)
    } else {
        match first_pos(s.drop_first(), p) {
            Some(i) => Some(i + 1),
            None => None,
        }
    }
}

/// `first_pos` finds the first character that satisfies the test.
proof fn lemma_first_pos(s: Seq<char>, p: spec_fn(char) -> bool, i: int)
    requires
        0 <= i <= s.len(),
        forall|k: int| 0 <= k < i ==> !p(#[trigger] s[k]),
    ensures
        i < s.len() && p(s[i]) ==> first_pos(s, p) == Some(i),
        i == s.len() ==> first_pos(s, p) is None,
    decreases i,
{
    if s.len() > 0 && i > 0 {
        let rest = s.drop_first();
        assert forall|k: int| 0 <= k < i - 1 implies !p(#[trigger] rest[k]) by {
            assert(rest[k] == s[k + 1]);
        }
        assert(!p(s[0]));
        lemma_first_pos(rest, p, i - 1);
        if i < s.len() {
            assert(rest[i - 1] == s[i]);
        }
    }
}

/// The first position from `from` on of `c` (when `eq` holds) or else of a
/// whitespace character; the length when there is none.
fn find_char(v: &Vec<char>, from: usize, eq: bool, c: char) -> (r: usize)
    requires
        from <= v.len(),
    ensures
        from <= r <= v.len(),
        forall|k: int| from <= k < r ==> !(if eq { v@[k] == c } else { is_white_space(v@[k]) }),
        r < v.len() ==> (if eq { v@[r as int] == c } else { is_white_space(v@[r as int]) }),
{
    let mut i = from;
    while i < v.len()
        invariant
            from <= i <= v.len(),
            forall|k: int| from <= k < i ==> !(if eq { v@[k] == c } else { is_white_space(v@[k]) }),
        decreases v.len() - i,
    {
        let hit = if eq { v[i] == c } else { is_whitespace(v[i]) };
        if hit {
            return i;
        }
        i = i + 1;
    }
    i
}

/// A setting's value in a `key = value` line: what lies between the first
/// `=` and the next one (as `split('=').nth(1)`), if the line has an `=`.
pub open spec fn value_after_equals(line: Seq<char>) -> Option<Seq<char>> {
    match first_pos(line, |c: char| c == '=') {
        Some(k) => {
            let rest = line.skip(k + 1);
            match first_pos(rest, |c: char| c == '=') {
                Some(j) => Some(rest.take(j)),
                None => Some(rest),
            }
        },
        None => None,
    }
}

/// A setting's value in a `key value` line: what follows the first
/// whitespace character (as `split_once(char::is_whitespace)`), if any.
pub open spec fn value_after_space(line: Seq<char>) -> Option<Seq<char>> {
    match first_pos(line, |c: char| is_white_space(c)) {
        Some(k) => Some(line.skip(k + 1)),
        None => None,
    }
}

/// The font a configuration line names: for a trimmed line that starts with
/// `key`, its value trimmed, when there is one and it is not empty.
pub open spec fn font_on_line(line: Seq<char>, key: Seq<char>, equals: bool) -> Option<Seq<char>> {
    let t = trim(line);
    if starts_with(t, key) {
        match if equals { value_after_equals(t) } else { value_after_space(t) } {
            Some(v) => if trim(v).len() > 0 { Some(trim(v)) } else { None },
            None => None,
        }
    } else {
        None
    }
}

/// The font that the first line naming one names.
pub open spec fn first_font(lines: Seq<Seq<char>>, key: Seq<char>, equals: bool) -> Option<Seq<char>>
    decreases lines.len(),
{
    if lines.len() == 0 {
        None
    } else {
        match font_on_line(lines[0], key, equals) {
            Some(f) => Some(f),
            None => first_font(lines.drop_first(), key, equals),
        }
    }
}

/// The font named on one configuration line, if any.
fn line_font(line: &Vec<char>, key: &Vec<char>, equals: bool) -> (r: Option<Vec<char>>)
    ensures
        match r {
            Some(f) => font_on_line(line@, key@, equals) == Some(f@),
            None => font_on_line(line@, key@, equals) is None,
        },
{
    let t = trim_chars(line);
    if !starts_with_chars(&t, key) {
        return None;
    }
    let k = find_char(&t, 0, equals, '=');
    proof {
        assert(t@.skip(0) =~= t@);
        if equals {
            lemma_first_pos(t@, |c: char| c == '=', k as int);
        } else {
            lemma_first_pos(t@, |c: char| is_white_space(c), k as int);
        }
    }
    if k == t.len() {
        return None;
    }
    let value: Vec<char> = if equals {
        let j = find_char(&t, k + 1, true, '=');
        proof {
            let rest = t@.skip(k + 1);
            assert forall|m: int| 0 <= m < j - (k + 1) implies !(#[trigger] rest[m] == '=') by {
                assert(rest[m] == t@[k + 1 + m]);
            }
            lemma_first_pos(rest, |c: char| c == '=', j - (k + 1));
            if j < t.len() {
                assert(rest[j - (k + 1)] == t@[j as int]);
            }
            assert(rest.take(j - (k + 1)) =~= t@.subrange(k + 1, j as int));
            assert(rest =~= t@.subrange(k + 1, t.len() as int));
        }
        crate::text::copy_range(&t, k + 1, j)
    } else {
        proof {
            assert(t@.skip(k + 1) =~= t@.subrange(k + 1, t.len() as int));
        }
        crate::text::copy_range(&t, k + 1, t.len())
    };
    let v = trim_chars(&value);
    if v.len() > 0 {
        Some(v)
    } else {
        None
    }
}

/// The font a terminal's configuration text names: the first line that
/// starts, once trimmed, with `key` and has a non-empty value (after an `=`
/// when `equals` holds, else after the first whitespace).
pub fn configured_font(contents: &str, key: &str, equals: bool) -> (r: Option<String>)
    ensures
        match r {
            Some(f) => first_font(text_lines(contents@), key@, equals) == Some(f@),
            None => first_font(text_lines(contents@), key@, equals) is None,
        },
{
    let lines = source_lines(contents);
    let key_chars = chars_of(key);
    let ghost ls = lines@.map_values(|l: Vec<char>| l@);
    let mut i: usize = 0;
    proof {
        assert(ls.skip(0) =~= ls);
    }
    while i < lines.len()
        invariant
            i <= lines.len(),
            ls == lines@.map_values(|l: Vec<char>| l@),
            ls == text_lines(contents@),
            key_chars@ == key@,
            first_font(ls.skip(i as int), key@, equals) == first_font(ls, key@, equals),
        decreases lines.len() - i,
    {
        proof {
            let rest = ls.skip(i as int);
            assert(rest[0] == lines@[i as int]@);
            assert(rest.drop_first() =~= ls.skip(i + 1));
        }
        match line_font(&lines[i], &key_chars, equals) {
            Some(f) => {
                return Some(string_of(f.as_slice()));
            },
            None => {},
        }
        i = i + 1;
    }
    proof {
        assert(ls.skip(i as int) =~= Seq::<Seq<char>>::empty());
    }
    None
}

/// What `first_where` finds is a family, and satisfies the test.
proof fn lemma_first_where_found(fams: Seq<Seq<char>>, p: spec_fn(Seq<char>) -> bool)
    ensures
        match first_where(fams, p) {
            Some(i) => 0 <= i < fams.len() && p(fams[i]),
            None => true,
        },
    decreases fams.len(),
{
    if fams.len() > 0 && !p(fams[0]) {
        lemma_first_where_found(fams.drop_first(), p);
    }
}

/// The chosen font family is one of the installed families, or else the
/// configured name itself.
pub proof fn law_chosen_family_is_installed_or_named(fams: Seq<Seq<char>>, name: Seq<char>)
    ensures
        fams.contains(chosen_family(fams, name)) || chosen_family(fams, name) == name,
{
    lemma_first_where_found(fams, |f: Seq<char>| same_ignoring_ascii_case(f, name));
    lemma_first_where_found(fams, |f: Seq<char>| names_plainly(f, name));
    lemma_first_where_found(fams, |f: Seq<char>| begins_plainly(f, name));
}

} // verus!
