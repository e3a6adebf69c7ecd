//! Printing support for the variant list of an enum prompt: the default
//! variant's name gets a trailing marker, the names are joined with commas,
//! and the joined text is wrapped into lines of at most one hundred
//! characters, cut back to the last space so no word is split.
use vstd::prelude::*;

use crate::codec::display_names;
use crate::codec::display_names_of;
use crate::codec::display_of;
use crate::text::str_eq;

verus! {

/// The width a printed line of variant names may not exceed, except when a
/// single unbroken word runs past it.
pub open spec fn line_width() -> int {
    100
}

/// Every name equal to the default's name, with the default marker
/// appended; every other name unchanged.
pub open spec fn annotated(names: Seq<Seq<char>>, d: Seq<char>) -> Seq<Seq<char>> {
    names.map_values(
        |n: Seq<char>|
            if n == d {
                n + seq!['(', '*', ')']
            } else {
                n
            },
    )
}

/// Appends the default marker to every name that equals the default's name.
pub fn annotate_default(names: &Vec<String>, d: &str) -> (r: Vec<String>)
    ensures
        r.deep_view() == annotated(names.deep_view(), d@),
{
    let mut r: Vec<String> = Vec::new();
    let mut i: usize = 0;
    while i < names.len()
        invariant
            0 <= i <= names.len(),
            r@.len() == i,
            forall|j: int|
                0 <= j < i ==> r@[j]@ == annotated(names.deep_view(), d@)[j],
        decreases names.len() - i,
    {
        if str_eq(names[i].as_str(), d) {
            let mut t = names[i].clone();
            t.append("(*)");
            proof {
                reveal_strlit("(*)");
                assert(t@ =~= names.deep_view()[i as int] + seq!['(', '*', ')']);
            }
            r.push(t);
        } else {
            r.push(names[i].clone());
        }
        i = i + 1;
    }
    proof {
        assert(r.deep_view() =~= annotated(names.deep_view(), d@));
    }
    r
}

/// The names joined with a comma and a space between neighbours.
pub open spec fn joined_comma(names: Seq<Seq<char>>) -> Seq<char>
    decreases names.len(),
{
    if names.len() == 0 {
        Seq::empty()
    } else if names.len() == 1 {
        names[0]
    } else {
        joined_comma(names.drop_last()) + seq![',', ' '] + names.last()
    }
}

/// Joins the names with ", " between neighbours.
pub fn join_comma(names: &Vec<String>) -> (r: String)
    ensures
        r@ == joined_comma(names.deep_view()),
{
    let mut r = String::new();
    let mut i: usize = 0;
    while i < names.len()
        invariant
            0 <= i <= names.len(),
            r@ == joined_comma(names.deep_view().take(i as int)),
        decreases names.len() - i,
    {
        if i > 0 {
            r.append(", ");
            proof {
                reveal_strlit(", ");
            }
        }
        r.append(names[i].as_str());
        proof {
            let dv = names.deep_view();
            assert(dv.take(i + 1).drop_last() =~= dv.take(i as int));
            assert(dv.take(i + 1).last() == dv[i as int]);
            if i > 0 {
                assert(r@ =~= joined_comma(dv.take(i as int)) + seq![',', ' '] + dv[i as int]);
            } else {
                assert(r@ =~= dv[0]);
            }
        }
        i = i + 1;
    }
    proof {
        assert(names.deep_view().take(names@.len() as int) =~= names.deep_view());
    }
    r
}

/// The position of the last space strictly before `n`, or -1 when no space
/// stands there.
pub open spec fn last_space_before(s: Seq<char>, n: int) -> int
    decreases n,
{
    if n <= 0 {
        -1
    } else if s[n - 1] == ' ' {
        n - 1
    } else {
        last_space_before(s, n - 1)
    }
}

/// What `last_space_before` names: a space with none after it before `n`,
/// or the absence of any space before `n`.
pub proof fn lemma_last_space_props(s: Seq<char>, n: int)
    requires
        0 <= n <= s.len(),
    ensures
        -1 <= last_space_before(s, n) < n,
        last_space_before(s, n) >= 0 ==> s[last_space_before(s, n)] == ' ',
        forall|k: int| last_space_before(s, n) < k < n ==> s[k] != ' ',
    decreases n,
{
    if n > 0 && s[n - 1] != ' ' {
        lemma_last_space_props(s, n - 1);
    }
}

/// The text wrapped into lines: while more than `line_width` characters
/// remain, the longest prefix of at most `line_width` characters is cut back
/// to the last space within it and emitted without that space; with no space
/// in the window, all the remaining text is emitted as one line.
pub open spec fn paginate_spec(s: Seq<char>) -> Seq<Seq<char>>
    decreases s.len(),
{
    if s.len() <= line_width() {
        seq![s]
    } else {
        let i = last_space_before(s, line_width());
        if 0 <= i < line_width() {
            seq![s.subrange(0, i)] + paginate_spec(s.subrange(i + 1, s.len() as int))
        } else {
            seq![s]
        }
    }
}

/// The index of the last space among the first `line_width` characters.
fn find_cut(rem: &str) -> (r: Option<usize>)
    requires
        rem@.len() >= line_width(),
    ensures
        match r {
            Some(i) => i as int == last_space_before(rem@, line_width()),
            None => last_space_before(rem@, line_width()) == -1,
        },
{
    let mut k: usize = 100;
    while k > 0
        invariant
            0 <= k <= 100,
            rem@.len() >= 100,
            last_space_before(rem@, 100) == last_space_before(rem@, k as int),
        decreases k,
    {
        if rem.get_char(k - 1) == ' ' {
            return Some(k - 1);
        }
        k = k - 1;
    }
    None
}

/// Wraps the text into lines of at most `line_width` characters, never
/// splitting at any place but a space; a window without a space is emitted
/// whole.
pub fn paginate(s: &str) -> (r: Vec<String>)
    ensures
        r.deep_view() == paginate_spec(s@),
{
    let mut out: Vec<String> = Vec::new();
    let mut rem: String = String::from_str(s);
    loop
        invariant
            paginate_spec(s@) == out.deep_view() + paginate_spec(rem@),
        decreases rem@.len(),
    {
        let n = rem.as_str().unicode_len();
        if n <= 100 {
            let ghost old_out = out.deep_view();
            let ghost tail = rem@;
            out.push(rem);
            proof {
                assert(out.deep_view() =~= old_out + seq![tail]);
                assert(old_out + seq![tail] =~= old_out + paginate_spec(tail));
            }
            return out;
        }
        match find_cut(rem.as_str()) {
            Some(i) => {
                proof {
                    lemma_last_space_props(rem@, 100);
                }
                let first = String::from_str(rem.as_str().substring_char(0, i));
                let rest = String::from_str(rem.as_str().substring_char(i + 1, n));
                let ghost old_out = out.deep_view();
                let ghost whole = rem@;
                out.push(first);
                proof {
                    assert(paginate_spec(whole) =~= seq![whole.subrange(0, i as int)]
                        + paginate_spec(whole.subrange(i + 1, whole.len() as int)));
                    assert(out.deep_view() =~= old_out + seq![whole.subrange(0, i as int)]);
                    assert(old_out + paginate_spec(whole) =~= out.deep_view() + paginate_spec(
                        whole.subrange(i + 1, whole.len() as int),
                    ));
                }
                rem = rest;
            },
            None => {
                let ghost old_out = out.deep_view();
                let ghost tail = rem@;
                out.push(rem);
                proof {
                    assert(paginate_spec(tail) =~= seq![tail]);
                    assert(out.deep_view() =~= old_out + seq![tail]);
                    assert(old_out + seq![tail] =~= old_out + paginate_spec(tail));
                }
                return out;
            },
        }
    }
}

/// The lines rejoined, one space standing in for each cut.
pub open spec fn rejoin_with_spaces(lines: Seq<Seq<char>>) -> Seq<char>
    decreases lines.len(),
{
    if lines.len() == 0 {
        Seq::empty()
    } else if lines.len() == 1 {
        lines[0]
    } else {
        lines[0] + seq![' '] + rejoin_with_spaces(lines.drop_first())
    }
}

/// Wrapping loses nothing: rejoining the emitted lines with a single space
/// at each cut point reproduces the original text.
pub proof fn lemma_paginate_rejoin(s: Seq<char>)
    ensures
        rejoin_with_spaces(paginate_spec(s)) == s,
    decreases s.len(),
{
    if s.len() > line_width() {
        let i = last_space_before(s, line_width());
        lemma_last_space_props(s, line_width());
        if 0 <= i < line_width() {
            let rest = s.subrange(i + 1, s.len() as int);
            lemma_paginate_rejoin(rest);
            let lines = paginate_spec(s);
            assert(paginate_spec(rest).len() >= 1);
            assert(lines.drop_first() =~= paginate_spec(rest));
            assert(rejoin_with_spaces(lines) == s.subrange(0, i) + seq![' ']
                + rejoin_with_spaces(paginate_spec(rest)));
            assert(s.subrange(0, i) + seq![' '] + rest =~= s);
        }
    }
}

/// When the text overflows the width and a space stands within the window,
/// the first emitted line fits the width and ends at a word boundary: the
/// character cut away after it is a space.
pub proof fn lemma_paginate_first_line(s: Seq<char>)
    requires
        s.len() > line_width(),
        exists|k: int| 0 <= k < line_width() && s[k] == ' ',
    ensures
        paginate_spec(s).len() >= 1,
        paginate_spec(s)[0].len() <= line_width(),
        s[paginate_spec(s)[0].len() as int] == ' ',
{
    lemma_last_space_props(s, line_width());
    let i = last_space_before(s, line_width());
    if i < 0 {
        let k = choose|k: int| 0 <= k < line_width() && s[k] == ' ';
        assert(s[k] != ' ');
    }
    assert(paginate_spec(s)[0] == s.subrange(0, i));
}

/// The lines that the enum prompt prints for a variant set: display names,
/// the default's name marked, joined with commas and wrapped to the width.
pub open spec fn variant_lines_of(raws: Seq<Seq<char>>, d: Option<int>) -> Seq<Seq<char>> {
    let names = display_names_of(raws);
    match d {
        Some(k) => paginate_spec(joined_comma(annotated(names, display_of(raws[k])))),
        None => paginate_spec(joined_comma(names)),
    }
}

/// Builds the printed candidate list for a variant set: every raw
/// identifier's display name, the default's marked with "(*)", the names
/// joined with ", ", the joined text wrapped to the width.
pub fn variant_list_lines(raws: &Vec<String>, default_idx: Option<usize>) -> (r: Vec<String>)
    requires
        match default_idx {
            Some(k) => k < raws@.len(),
            None => true,
        },
    ensures
        r.deep_view() == variant_lines_of(
            raws.deep_view(),
            match default_idx {
                Some(k) => Some(k as int),
                None => None,
            },
        ),
{
    let names = display_names(raws);
    let joined = match default_idx {
        Some(k) => {
            let d = crate::codec::add_spaces_before_caps(raws[k].as_str());
            let marked = annotate_default(&names, d.as_str());
            join_comma(&marked)
        },
        None => join_comma(&names),
    };
    paginate(joined.as_str())
}

} // verus!
