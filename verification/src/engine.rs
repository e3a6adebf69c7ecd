//! The decision layer of the prompt engine. Each prompt operation performs
//! one blocking read of the line-editing collaborator; everything after the
//! read — trimming, parsing, range checking, default and fallback selection —
//! is decided here, from the read's outcome alone, so the caller only
//! performs the read and hands its result over.
use vstd::prelude::*;

use crate::codec::match_index;
use crate::in_range;
use crate::parsers::parse_index;
use crate::parsers::parse_index_range;
use crate::parsers::spec_parse_index;
use crate::text::trim;
use crate::text::trim_of;

verus! {

/// How one blocking read ended: a submitted line, or an abort (interrupt,
/// end of input, or an error of the underlying editor).
pub enum ReadOutcome {
    Submitted(String),
    Aborted,
}

/// What an index prompt returns: the trimmed line parsed as an index, and
/// nothing on a parse failure or an aborted read.
pub fn index_prompt_result(outcome: &ReadOutcome) -> (r: Option<usize>)
    ensures
        match outcome {
            ReadOutcome::Submitted(l) => match r {
                Some(v) => spec_parse_index(trim_of(l@)) == Some(v as int),
                None => spec_parse_index(trim_of(l@)) is None,
            },
            ReadOutcome::Aborted => r is None,
        },
{
    match outcome {
        ReadOutcome::Submitted(l) => parse_index(trim(l.as_str())),
        ReadOutcome::Aborted => None,
    }
}

/// What a ranged index prompt returns: as the index prompt, but a value
/// outside the inclusive bounds is discarded, not clamped.
pub fn index_range_prompt_result(outcome: &ReadOutcome, low: usize, high: usize) -> (r: Option<
    usize,
>)
    ensures
        match outcome {
            ReadOutcome::Submitted(l) => match r {
                Some(v) => spec_parse_index(trim_of(l@)) == Some(v as int) && in_range(
                    v as int,
                    low as int,
                    high as int,
                ),
                None => match spec_parse_index(trim_of(l@)) {
                    Some(v) => !in_range(v, low as int, high as int),
                    None => true,
                },
            },
            ReadOutcome::Aborted => r is None,
        },
{
    match outcome {
        ReadOutcome::Submitted(l) => parse_index_range(trim(l.as_str()), low, high),
        ReadOutcome::Aborted => None,
    }
}

/// What a string prompt returns: the trimmed line verbatim, and nothing
/// only on an aborted read.
pub fn string_prompt_result(outcome: &ReadOutcome) -> (r: Option<String>)
    ensures
        match outcome {
            ReadOutcome::Submitted(l) => r is Some && r.unwrap()@ == trim_of(l@),
            ReadOutcome::Aborted => r is None,
        },
{
    match outcome {
        ReadOutcome::Submitted(l) => Some(String::from_str(trim(l.as_str()))),
        ReadOutcome::Aborted => None,
    }
}

/// What an enum prompt returns, as an index into the variant list: empty
/// trimmed input and an aborted read both yield the configured default;
/// non-empty input yields the first variant it matches, and nothing when it
/// matches none — the default never rescues a failed parse.
pub fn enum_prompt_result(outcome: &ReadOutcome, raws: &Vec<String>, default_idx: Option<usize>) -> (r:
    Option<usize>)
    ensures
        match outcome {
            ReadOutcome::Submitted(l) => if trim_of(l@).len() == 0 {
                r == default_idx
            } else {
                match r {
                    Some(i) => match_index(trim_of(l@), raws.deep_view()) == Some(i as int),
                    None => match_index(trim_of(l@), raws.deep_view()) is None,
                }
            },
            ReadOutcome::Aborted => r == default_idx,
        },
{
    match outcome {
        ReadOutcome::Submitted(l) => {
            let t = trim(l.as_str());
            if t.unicode_len() == 0 {
                default_idx
            } else {
                crate::codec::parse_input(t, raws)
            }
        },
        ReadOutcome::Aborted => default_idx,
    }
}

/// The fixed file name a file prompt falls back to.
pub open spec fn fallback_file_name() -> Seq<char> {
    seq!['J', 'o', 'h', 'n', 'D', 'o', 'e', '.', 'j', 's', 'o', 'n']
}

/// The fallback path under a directory: the directory, a path separator
/// unless one already ends it or it is empty, then the fallback file name.
pub open spec fn fallback_path_of(dir: Seq<char>) -> Seq<char> {
    if dir.len() == 0 {
        fallback_file_name()
    } else if dir.last() == '/' {
        dir + fallback_file_name()
    } else {
        dir + seq!['/'] + fallback_file_name()
    }
}

/// Builds the fallback path under the given directory.
pub fn default_file_path(dir: &str) -> (r: String)
    ensures
        r@ == fallback_path_of(dir@),
{
    let mut r = String::from_str(dir);
    let n = dir.unicode_len();
    if n > 0 && dir.get_char(n - 1) != '/' {
        r.append("/");
    }
    r.append("JohnDoe.json");
    proof {
        reveal_strlit("/");
        reveal_strlit("JohnDoe.json");
        assert("JohnDoe.json"@ =~= fallback_file_name());
        if n > 0 && dir@.last() != '/' {
            assert(r@ =~= fallback_path_of(dir@));
        } else {
            assert(r@ =~= fallback_path_of(dir@));
        }
    }
    r
}

/// What the user settled on at a file prompt: the fallback path (on empty
/// input or an aborted read), or a path of the user's own typing.
pub enum FileDecision {
    Fallback(String),
    Chosen(String),
}

/// Decides a file prompt from the read outcome: empty trimmed input and an
/// aborted read yield the fallback path under the directory; anything else
/// is the user's chosen path, trimmed, whether or not it exists.
pub fn file_prompt_decision(outcome: &ReadOutcome, dir: &str) -> (r: FileDecision)
    ensures
        match outcome {
            ReadOutcome::Submitted(l) => if trim_of(l@).len() == 0 {
                match r {
                    FileDecision::Fallback(p) => p@ == fallback_path_of(dir@),
                    FileDecision::Chosen(_) => false,
                }
            } else {
                match r {
                    FileDecision::Fallback(_) => false,
                    FileDecision::Chosen(p) => p@ == trim_of(l@),
                }
            },
            ReadOutcome::Aborted => match r {
                FileDecision::Fallback(p) => p@ == fallback_path_of(dir@),
                FileDecision::Chosen(_) => false,
            },
        },
{
    match outcome {
        ReadOutcome::Submitted(l) => {
            let t = trim(l.as_str());
            if t.unicode_len() == 0 {
                FileDecision::Fallback(default_file_path(dir))
            } else {
                FileDecision::Chosen(String::from_str(t))
            }
        },
        ReadOutcome::Aborted => FileDecision::Fallback(default_file_path(dir)),
    }
}

/// Settles a file prompt: a fallback is always reported as absent (the
/// caller may create it), a chosen path is a success exactly when it exists;
/// both sides carry a usable path.
pub fn file_prompt_result(decision: FileDecision, path_exists: bool) -> (r: Result<String, String>)
    ensures
        match decision {
            FileDecision::Fallback(p) => match r {
                Result::Err(q) => q@ == p@,
                Result::Ok(_) => false,
            },
            FileDecision::Chosen(p) => if path_exists {
                match r {
                    Result::Ok(q) => q@ == p@,
                    Result::Err(_) => false,
                }
            } else {
                match r {
                    Result::Err(q) => q@ == p@,
                    Result::Ok(_) => false,
                }
            },
        },
{
    match decision {
        FileDecision::Fallback(p) => Err(p),
        FileDecision::Chosen(p) => {
            if path_exists {
                Ok(p)
            } else {
                Err(p)
            }
        },
    }
}

} // verus!
