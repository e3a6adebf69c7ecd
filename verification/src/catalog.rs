//! The file catalog: out of a directory listing, the names of the regular
//! files whose extension case-sensitively equals the configured filter.
//! Reading the directory is the caller's business; the filtering is not.
use vstd::prelude::*;

use crate::text::str_eq;

verus! {

/// One directory entry as the caller saw it: the entry's file name and
/// whether the entry is a regular file.
pub struct CatalogEntry {
    pub name: String,
    pub is_file: bool,
}

/// The position of the last dot strictly before `n`, or -1 when none
/// stands there.
pub open spec fn last_dot_before(name: Seq<char>, n: int) -> int
    decreases n,
{
    if n <= 0 {
        -1
    } else if name[n - 1] == '.' {
        n - 1
    } else {
        last_dot_before(name, n - 1)
    }
}

/// The extension of a file name: what follows the last dot, absent when the
/// name holds no dot or only a leading one (a hidden file).
pub open spec fn extension_of(name: Seq<char>) -> Option<Seq<char>> {
    let i = last_dot_before(name, name.len() as int);
    if i > 0 {
        Some(name.subrange(i + 1, name.len() as int))
    } else {
        None
    }
}

/// Whether the file name's extension equals `ext`, case-sensitively.
pub fn has_extension(name: &str, ext: &str) -> (r: bool)
    ensures
        r == (extension_of(name@) == Some(ext@)),
{
    let n = name.unicode_len();
    let mut k: usize = n;
    while k > 0
        invariant
            0 <= k <= n,
            n == name@.len(),
            last_dot_before(name@, n as int) == last_dot_before(name@, k as int),
        decreases k,
    {
        if name.get_char(k - 1) == '.' {
            if k - 1 > 0 {
                return str_eq(name.substring_char(k, n), ext);
            } else {
                return false;
            }
        }
        k = k - 1;
    }
    false
}

/// An entry belongs to the catalog: a regular file with the wanted
/// extension.
pub open spec fn entry_kept(e: CatalogEntry, ext: Seq<char>) -> bool {
    e.is_file && extension_of(e.name@) == Some(ext)
}

/// The names of the kept entries, in listing order.
pub open spec fn kept_names(entries: Seq<CatalogEntry>, ext: Seq<char>) -> Seq<Seq<char>>
    decreases entries.len(),
{
    if entries.len() == 0 {
        Seq::empty()
    } else {
        let rest = kept_names(entries.drop_last(), ext);
        if entry_kept(entries.last(), ext) {
            rest + seq![entries.last().name@]
        } else {
            rest
        }
    }
}

/// Filters a directory listing down to the names of the regular files whose
/// extension equals `ext`, keeping the listing order. Entries of any other
/// kind are silently skipped.
pub fn files_with_extension(entries: &Vec<CatalogEntry>, ext: &str) -> (r: Vec<String>)
    ensures
        r.deep_view() == kept_names(entries@, ext@),
{
    let mut r: Vec<String> = Vec::new();
    let mut i: usize = 0;
    while i < entries.len()
        invariant
            0 <= i <= entries.len(),
            r.deep_view() == kept_names(entries@.take(i as int), ext@),
        decreases entries.len() - i,
    {
        let ghost old_r = r.deep_view();
        if entries[i].is_file && has_extension(entries[i].name.as_str(), ext) {
            r.push(entries[i].name.clone());
            proof {
                assert(r.deep_view() =~= old_r + seq![entries@[i as int].name@]);
            }
        }
        proof {
            assert(entries@.take(i + 1).drop_last() =~= entries@.take(i as int));
            assert(entries@.take(i + 1).last() == entries@[i as int]);
        }
        i = i + 1;
    }
    proof {
        assert(entries@.take(entries@.len() as int) =~= entries@);
    }
    r
}

} // verus!
