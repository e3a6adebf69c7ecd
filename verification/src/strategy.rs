//! Completion strategies: a closed set of behaviours installed into the
//! line-editing session before each read. The inert strategy offers nothing;
//! the enum strategy matches the whole line up to the cursor against variant
//! display names, case-insensitively, anchored at the line start; the file
//! strategy matches only the token between the last whitespace or path
//! separator and the cursor, case-sensitively, anchored at that boundary.
use vstd::prelude::*;

use crate::chars::is_ws;
use crate::chars::is_ws_char;
use crate::chars::lower_of;
use crate::chars::lowercase;
use crate::text::str_starts_with;

verus! {

/// A variant name is offered when the typed word is a case-insensitive
/// prefix of it.
pub open spec fn enum_offered(v: Seq<char>, word: Seq<char>) -> bool {
    lower_of(word).is_prefix_of(lower_of(v))
}

/// The variant names offered for a typed word, in declaration order.
pub open spec fn enum_candidates(vs: Seq<Seq<char>>, word: Seq<char>) -> Seq<Seq<char>>
    decreases vs.len(),
{
    if vs.len() == 0 {
        Seq::empty()
    } else {
        let rest = enum_candidates(vs.drop_last(), word);
        if enum_offered(vs.last(), word) {
            rest + seq![vs.last()]
        } else {
            rest
        }
    }
}

/// Offers tab completion over an enum's variant display names.
pub struct EnumCompleterHelper {
    variants: Vec<String>,
}

impl EnumCompleterHelper {
    /// The display names this helper completes over.
    pub closed spec fn variants_view(&self) -> Seq<Seq<char>> {
        self.variants.deep_view()
    }

    /// Builds a helper over the given display names.
    pub fn new(variants: Vec<String>) -> (r: Self)
        ensures
            r.variants_view() == variants.deep_view(),
    {
        EnumCompleterHelper { variants }
    }

    /// The candidates for the current line: every variant name of which the
    /// whole line up to the cursor is a case-insensitive prefix. The
    /// replacement anchor is always the line start.
    pub fn complete(&self, line: &str, pos: usize) -> (r: (usize, Vec<String>))
        requires
            pos <= line@.len(),
        ensures
            r.0 == 0,
            r.1.deep_view() == enum_candidates(
                self.variants_view(),
                line@.subrange(0, pos as int),
            ),
    {
        let word = line.substring_char(0, pos);
        let wl = lowercase(word);
        let mut out: Vec<String> = Vec::new();
        let mut i: usize = 0;
        while i < self.variants.len()
            invariant
                0 <= i <= self.variants.len(),
                wl@ == lower_of(word@),
                word@ == line@.subrange(0, pos as int),
                pos <= line@.len(),
                out.deep_view() == enum_candidates(self.variants.deep_view().take(i as int), word@),
            decreases self.variants.len() - i,
        {
            let ghost old_out = out.deep_view();
            let vl = lowercase(self.variants[i].as_str());
            if str_starts_with(vl.as_str(), wl.as_str()) {
                out.push(self.variants[i].clone());
                proof {
                    assert(out.deep_view() =~= old_out + seq![self.variants.deep_view()[i as int]]);
                }
            }
            proof {
                let dv = self.variants.deep_view();
                assert(dv.take(i + 1).drop_last() =~= dv.take(i as int));
                assert(dv.take(i + 1).last() == dv[i as int]);
            }
            i = i + 1;
        }
        proof {
            let dv = self.variants.deep_view();
            assert(dv.take(dv.len() as int) =~= dv);
        }
        (0, out)
    }
}

/// A file name is offered when the typed token is a prefix of it,
/// case-sensitively.
pub open spec fn file_offered(f: Seq<char>, word: Seq<char>) -> bool {
    word.is_prefix_of(f)
}

/// The file names offered for a typed token, in catalog order.
pub open spec fn file_candidates(fs: Seq<Seq<char>>, word: Seq<char>) -> Seq<Seq<char>>
    decreases fs.len(),
{
    if fs.len() == 0 {
        Seq::empty()
    } else {
        let rest = file_candidates(fs.drop_last(), word);
        if file_offered(fs.last(), word) {
            rest + seq![fs.last()]
        } else {
            rest
        }
    }
}

/// The start of the token being typed: one past the last whitespace or path
/// separator before the cursor, or the line start.
pub open spec fn token_start(line: Seq<char>, pos: int) -> int
    decreases pos,
{
    if pos <= 0 {
        0
    } else if is_ws_char(line[pos - 1]) || line[pos - 1] == '/' {
        pos
    } else {
        token_start(line, pos - 1)
    }
}

/// The index where the token under the cursor begins.
fn find_token_start(line: &str, pos: usize) -> (r: usize)
    requires
        pos <= line@.len(),
    ensures
        r <= pos,
        r as int == token_start(line@, pos as int),
{
    let mut k: usize = pos;
    while k > 0
        invariant
            0 <= k <= pos <= line@.len(),
            token_start(line@, pos as int) == token_start(line@, k as int),
        decreases k,
    {
        let c = line.get_char(k - 1);
        if is_ws(c) || c == '/' {
            return k;
        }
        k = k - 1;
    }
    0
}

/// Offers tab completion over a catalog of file names.
pub struct FileCompleterHelper {
    files: Vec<String>,
}

impl FileCompleterHelper {
    /// The file names this helper completes over.
    pub closed spec fn files_view(&self) -> Seq<Seq<char>> {
        self.files.deep_view()
    }

    /// Builds a helper over the given file names.
    pub fn new(files: Vec<String>) -> (r: Self)
        ensures
            r.files_view() == files.deep_view(),
    {
        FileCompleterHelper { files }
    }

    /// The candidates for the current line: every file name of which the
    /// token between the last whitespace or path separator and the cursor is
    /// a prefix. The replacement anchor is the token start.
    pub fn complete(&self, line: &str, pos: usize) -> (r: (usize, Vec<String>))
        requires
            pos <= line@.len(),
        ensures
            r.0 as int == token_start(line@, pos as int),
            r.1.deep_view() == file_candidates(
                self.files_view(),
                line@.subrange(token_start(line@, pos as int), pos as int),
            ),
    {
        let start = find_token_start(line, pos);
        let word = line.substring_char(start, pos);
        let mut out: Vec<String> = Vec::new();
        let mut i: usize = 0;
        while i < self.files.len()
            invariant
                0 <= i <= self.files.len(),
                pos <= line@.len(),
                start as int == token_start(line@, pos as int),
                word@ == line@.subrange(start as int, pos as int),
                out.deep_view() == file_candidates(self.files.deep_view().take(i as int), word@),
            decreases self.files.len() - i,
        {
            let ghost old_out = out.deep_view();
            if str_starts_with(self.files[i].as_str(), word) {
                out.push(self.files[i].clone());
                proof {
                    assert(out.deep_view() =~= old_out + seq![self.files.deep_view()[i as int]]);
                }
            }
            proof {
                let dv = self.files.deep_view();
                assert(dv.take(i + 1).drop_last() =~= dv.take(i as int));
                assert(dv.take(i + 1).last() == dv[i as int]);
            }
            i = i + 1;
        }
        proof {
            let dv = self.files.deep_view();
            assert(dv.take(dv.len() as int) =~= dv);
        }
        (start, out)
    }
}

/// The completion strategy installed into the line-editing session: exactly
/// one is active per read, and every prompt that does not need completions
/// resets it to the inert one so nothing leaks between prompts.
pub enum ActiveHelper {
    Inert,
    Enum(EnumCompleterHelper),
    File(FileCompleterHelper),
}

impl ActiveHelper {
    /// Puts the session back to the inert strategy.
    pub fn reset(&mut self)
        ensures
            *final (self) is Inert,
    {
        *self = ActiveHelper::Inert;
    }

    /// The candidates the active strategy offers: none when inert, variant
    /// names against the whole line when completing an enum, file names
    /// against the current token when completing a file name.
    pub fn complete(&self, line: &str, pos: usize) -> (r: (usize, Vec<String>))
        requires
            pos <= line@.len(),
        ensures
            match self {
                ActiveHelper::Inert => r.0 == pos && r.1@.len() == 0,
                ActiveHelper::Enum(h) => r.0 == 0 && r.1.deep_view() == enum_candidates(
                    h.variants_view(),
                    line@.subrange(0, pos as int),
                ),
                ActiveHelper::File(h) => r.0 as int == token_start(line@, pos as int)
                    && r.1.deep_view() == file_candidates(
                    h.files_view(),
                    line@.subrange(token_start(line@, pos as int), pos as int),
                ),
            },
    {
        match self {
            ActiveHelper::Inert => (pos, Vec::new()),
            ActiveHelper::Enum(h) => h.complete(line, pos),
            ActiveHelper::File(h) => h.complete(line, pos),
        }
    }
}

} // verus!
