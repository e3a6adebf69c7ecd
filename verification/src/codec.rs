//! The enumerated-value codec: derives a human-readable display name from a
//! raw identifier (a space goes in before every capital that follows some
//! earlier character and precedes a lowercase letter), and parses user text
//! back to a variant index by case-insensitive first match against either
//! form.
use vstd::prelude::*;

use crate::chars::char_is_lower;
use crate::chars::char_is_upper;
use crate::chars::is_lower_char;
use crate::chars::is_upper_char;
use crate::chars::lower_of;
use crate::chars::lowercase;
use crate::text::str_eq;

verus! {

/// A space belongs immediately before position `i`: the character there is
/// uppercase, it is not the first character, and a lowercase letter follows.
pub open spec fn qualifies(s: Seq<char>, i: int) -> bool {
    &&& 0 < i
    &&& i + 1 < s.len()
    &&& is_upper_char(s[i])
    &&& is_lower_char(s[i + 1])
}

/// The display form of the suffix of `s` that starts at `i`, with the
/// spaces that positions from `i` on call for.
pub open spec fn display_from(s: Seq<char>, i: int) -> Seq<char>
    decreases s.len() - i,
{
    if i < 0 || i >= s.len() {
        Seq::empty()
    } else if qualifies(s, i) {
        seq![' '] + seq![s[i]] + display_from(s, i + 1)
    } else {
        seq![s[i]] + display_from(s, i + 1)
    }
}

/// The display name derived from a raw identifier.
pub open spec fn display_of(s: Seq<char>) -> Seq<char> {
    display_from(s, 0)
}

/// How many positions of `s` from `i` on call for an inserted space.
pub open spec fn boundary_count(s: Seq<char>, i: int) -> int
    decreases s.len() - i,
{
    if i < 0 || i >= s.len() {
        0
    } else {
        (if qualifies(s, i) {
            1int
        } else {
            0int
        }) + boundary_count(s, i + 1)
    }
}

/// Derives the display name of a raw identifier: one space is inserted
/// before every uppercase character that is not first and is followed by a
/// lowercase character.
pub fn add_spaces_before_caps(s: &str) -> (r: String)
    ensures
        r@ == display_of(s@),
{
    let n = s.unicode_len();
    let mut r = String::new();
    let mut i: usize = 0;
    while i < n
        invariant
            0 <= i <= n,
            n == s@.len(),
            display_of(s@) == r@ + display_from(s@, i as int),
        decreases n - i,
    {
        let ghost prev = r@;
        let c = s.get_char(i);
        if i > 0 && char_is_upper(c) && i + 1 < n && char_is_lower(s.get_char(i + 1)) {
            r.append(" ");
            proof {
                reveal_strlit(" ");
            }
        }
        let piece = s.substring_char(i, i + 1);
        proof {
            assert(piece@ =~= seq![s@[i as int]]);
        }
        r.append(piece);
        proof {
            if qualifies(s@, i as int) {
                assert(r@ =~= prev + (seq![' '] + seq![s@[i as int]]));
                assert(prev + (seq![' '] + seq![s@[i as int]]) + display_from(s@, i + 1) =~= prev
                    + display_from(s@, i as int));
            } else {
                assert(r@ =~= prev + seq![s@[i as int]]);
                assert(prev + seq![s@[i as int]] + display_from(s@, i + 1) =~= prev + display_from(
                    s@,
                    i as int,
                ));
            }
        }
        i = i + 1;
    }
    proof {
        assert(r@ + display_from(s@, i as int) =~= r@);
    }
    r
}

proof fn lemma_display_from_length(s: Seq<char>, i: int)
    requires
        0 <= i <= s.len(),
    ensures
        display_from(s, i).len() == (s.len() - i) + boundary_count(s, i),
    decreases s.len() - i,
{
    if i < s.len() {
        lemma_display_from_length(s, i + 1);
    }
}

/// Exactly one space is inserted per qualifying position: the display name
/// is longer than the raw identifier by the number of such positions.
pub proof fn lemma_display_length(s: Seq<char>)
    ensures
        display_of(s).len() == s.len() + boundary_count(s, 0),
{
    lemma_display_from_length(s, 0);
}

proof fn lemma_display_from_identity(s: Seq<char>, i: int)
    requires
        0 <= i <= s.len(),
        forall|k: int| !qualifies(s, k),
    ensures
        display_from(s, i) == s.subrange(i, s.len() as int),
    decreases s.len() - i,
{
    if i == s.len() {
        assert(display_from(s, i) =~= s.subrange(i, s.len() as int));
    } else {
        lemma_display_from_identity(s, i + 1);
        assert(seq![s[i]] + s.subrange(i + 1, s.len() as int) =~= s.subrange(i, s.len() as int));
    }
}

/// On an identifier with no qualifying position, the derivation changes
/// nothing.
pub proof fn lemma_display_identity(s: Seq<char>)
    ensures
        (forall|k: int| !qualifies(s, k)) ==> display_of(s) == s,
{
    if forall|k: int| !qualifies(s, k) {
        lemma_display_from_identity(s, 0);
        assert(s.subrange(0, s.len() as int) =~= s);
    }
}

/// The derivation is idempotent exactly when its own output has no further
/// qualifying position.
pub proof fn lemma_display_idempotent(s: Seq<char>)
    ensures
        (forall|k: int| !qualifies(display_of(s), k)) ==> display_of(display_of(s)) == display_of(
            s,
        ),
{
    lemma_display_identity(display_of(s));
}

/// The string with every space removed.
pub open spec fn spaces_removed(s: Seq<char>) -> Seq<char> {
    s.filter(|c: char| c != ' ')
}

proof fn lemma_display_from_spaces_removed(s: Seq<char>, i: int)
    requires
        0 <= i <= s.len(),
        forall|k: int| 0 <= k < s.len() ==> s[k] != ' ',
    ensures
        spaces_removed(display_from(s, i)) == s.subrange(i, s.len() as int),
    decreases s.len() - i,
{
    reveal_with_fuel(Seq::filter, 3);
    broadcast use vstd::seq_lib::group_filter_ensures;

    if i == s.len() {
        assert(spaces_removed(display_from(s, i)) =~= s.subrange(i, s.len() as int));
    } else {
        lemma_display_from_spaces_removed(s, i + 1);
        let pred = |c: char| c != ' ';
        let rest = display_from(s, i + 1);
        assert(seq![s[i]].filter(pred) =~= seq![s[i]]);
        if qualifies(s, i) {
            assert(seq![' '].filter(pred) =~= Seq::<char>::empty());
            Seq::filter_distributes_over_add(seq![' '] + seq![s[i]], rest, pred);
            Seq::filter_distributes_over_add(seq![' '], seq![s[i]], pred);
            assert(display_from(s, i).filter(pred) =~= seq![s[i]] + rest.filter(pred));
        } else {
            Seq::filter_distributes_over_add(seq![s[i]], rest, pred);
        }
        assert(seq![s[i]] + s.subrange(i + 1, s.len() as int) =~= s.subrange(i, s.len() as int));
    }
}

/// On a space-free identifier the derivation only inserts spaces: removing
/// every space from the display name gives the identifier back.
pub proof fn lemma_display_spaces_removed(s: Seq<char>)
    requires
        forall|k: int| 0 <= k < s.len() ==> s[k] != ' ',
    ensures
        spaces_removed(display_of(s)) == s,
{
    lemma_display_from_spaces_removed(s, 0);
    assert(s.subrange(0, s.len() as int) =~= s);
}

/// User text selects a raw identifier when, lowercased, it equals the
/// lowercased display name or the lowercased raw identifier itself.
pub open spec fn input_matches(s: Seq<char>, raw: Seq<char>) -> bool {
    lower_of(display_of(raw)) == lower_of(s) || lower_of(raw) == lower_of(s)
}

/// The index of the first raw identifier the text matches, in declaration
/// order.
pub open spec fn match_index(s: Seq<char>, raws: Seq<Seq<char>>) -> Option<int>
    decreases raws.len(),
{
    if raws.len() == 0 {
        None
    } else if input_matches(s, raws[0]) {
        Some(0int)
    } else {
        match match_index(s, raws.drop_first()) {
            Some(k) => Some(k + 1),
            None => None,
        }
    }
}

/// `match_index` names the first matching identifier and nothing else:
/// a `Some` result is a match that no earlier identifier beats, and a `None`
/// result means no identifier matches.
pub proof fn lemma_match_index_first(s: Seq<char>, raws: Seq<Seq<char>>)
    ensures
        match match_index(s, raws) {
            Some(i) => 0 <= i < raws.len() && input_matches(s, raws[i]) && (forall|j: int|
                0 <= j < i ==> !input_matches(s, raws[j])),
            None => forall|j: int| 0 <= j < raws.len() ==> !input_matches(s, raws[j]),
        },
    decreases raws.len(),
{
    if raws.len() > 0 && !input_matches(s, raws[0]) {
        lemma_match_index_first(s, raws.drop_first());
        assert(forall|j: int|
            1 <= j < raws.len() ==> raws[j] == raws.drop_first()[j - 1]);
    }
}

/// Parses user text to the index of the variant it selects: the first raw
/// identifier, in order, whose display name or raw form equals the text
/// case-insensitively. No match parses to nothing.
pub fn parse_input(s: &str, raws: &Vec<String>) -> (r: Option<usize>)
    ensures
        match r {
            Some(i) => match_index(s@, raws.deep_view()) == Some(i as int),
            None => match_index(s@, raws.deep_view()) is None,
        },
{
    let sl = lowercase(s);
    let mut i: usize = 0;
    while i < raws.len()
        invariant
            0 <= i <= raws.len(),
            sl@ == lower_of(s@),
            raws.deep_view().len() == raws@.len(),
            forall|j: int| 0 <= j < raws@.len() ==> raws.deep_view()[j] == raws@[j]@,
            forall|j: int| 0 <= j < i ==> !input_matches(s@, raws.deep_view()[j]),
        decreases raws.len() - i,
    {
        let disp = add_spaces_before_caps(raws[i].as_str());
        let dl = lowercase(disp.as_str());
        let hit = if str_eq(dl.as_str(), sl.as_str()) {
            true
        } else {
            let rl = lowercase(raws[i].as_str());
            str_eq(rl.as_str(), sl.as_str())
        };
        if hit {
            proof {
                assert(input_matches(s@, raws.deep_view()[i as int]));
                lemma_match_index_first(s@, raws.deep_view());
            }
            return Some(i);
        }
        i = i + 1;
    }
    proof {
        lemma_match_index_first(s@, raws.deep_view());
    }
    None
}

/// The display names of a list of raw identifiers, in order.
pub open spec fn display_names_of(raws: Seq<Seq<char>>) -> Seq<Seq<char>> {
    raws.map_values(|r: Seq<char>| display_of(r))
}

/// Derives the display name of every raw identifier, keeping the order.
pub fn display_names(raws: &Vec<String>) -> (r: Vec<String>)
    ensures
        r.deep_view() == display_names_of(raws.deep_view()),
{
    let mut r: Vec<String> = Vec::new();
    let mut i: usize = 0;
    while i < raws.len()
        invariant
            0 <= i <= raws.len(),
            r@.len() == i,
            forall|j: int| 0 <= j < i ==> r@[j]@ == display_of(raws.deep_view()[j]),
        decreases raws.len() - i,
    {
        r.push(add_spaces_before_caps(raws[i].as_str()));
        i = i + 1;
    }
    proof {
        assert(r.deep_view() =~= display_names_of(raws.deep_view()));
    }
    r
}

/// A variant's own display name and its own raw identifier both match it;
/// so, when no earlier variant also matches that text, parsing the display
/// name or the raw identifier of a variant yields that variant back,
/// case-insensitively and for any text with the same lowercase form.
pub proof fn lemma_parse_round_trip(raws: Seq<Seq<char>>, i: int, s: Seq<char>)
    requires
        0 <= i < raws.len(),
    ensures
        input_matches(display_of(raws[i]), raws[i]),
        input_matches(raws[i], raws[i]),
        (lower_of(s) == lower_of(display_of(raws[i])) || lower_of(s) == lower_of(raws[i]))
            ==> input_matches(s, raws[i]),
        (input_matches(s, raws[i]) && (forall|j: int| 0 <= j < i ==> !input_matches(s, raws[j])))
            ==> match_index(s, raws) == Some(i),
{
    lemma_match_index_first(s, raws);
    if input_matches(s, raws[i]) && (forall|j: int| 0 <= j < i ==> !input_matches(s, raws[j])) {
        match match_index(s, raws) {
            Some(k) => {
                if k < i {
                    assert(input_matches(s, raws[k]));
                }
                if k > i {
                    assert(!input_matches(s, raws[i]));
                }
            },
            None => {
                assert(!input_matches(s, raws[i]));
            },
        }
    }
}

} // verus!
