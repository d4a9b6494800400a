//! Recognising, among the files of the download folder, one that already
//! holds a video of the given file name.
use vstd::prelude::*;
use crate::progress::string_views;
use crate::text::{chars_of, contains, contains_exec, occurs_at, string_of};

verus! {

/// What `str::to_lowercase` returns for the text `s`.
pub uninterp spec fn lowercase(s: Seq<char>) -> Seq<char>;

/// What `char::is_alphanumeric` returns for `c`.
pub uninterp spec fn alphanumeric(c: char) -> bool;

/// Trusted: calls `str::to_lowercase`; the contract names its result
/// `lowercase(s@)`, a function of the text alone, and claims nothing more.
#[verifier::external_body]
fn to_lowercase(s: &str) -> (r: String)
    ensures
        r@ == lowercase(s@),
{
    s.to_lowercase()
}

/// Trusted: calls `char::is_alphanumeric`; the contract names its result
/// `alphanumeric(c)`, a function of the character alone, and claims nothing
/// more.
#[verifier::external_body]
fn is_alphanumeric(c: char) -> (r: bool)
    ensures
        r == alphanumeric(c),
{
    c.is_alphanumeric()
}

/// A character kept in a cleaned file name: alphanumeric, `.`, `-` or `_`.
pub open spec fn is_name_char(c: char) -> bool {
    alphanumeric(c) || c == '.' || c == '-' || c == '_'
}

/// `s` with only the characters kept in a cleaned file name.
pub open spec fn name_chars(s: Seq<char>) -> Seq<char>
    decreases s.len(),
{
    if s.len() == 0 {
        seq![]
    } else {
        let r = name_chars(s.drop_last());
        if is_name_char(s.last()) {
            r.push(s.last())
        } else {
            r
        }
    }
}

/// `s` with only the characters kept in a cleaned file name.
pub fn name_chars_exec(s: &Vec<char>) -> (r: Vec<char>)
    ensures
        r@ == name_chars(s@),
{
    let mut r: Vec<char> = Vec::new();
    let mut i: usize = 0;
    while i < s.len()
        invariant
            i <= s@.len(),
            r@ == name_chars(s@.take(i as int)),
        decreases s@.len() - i,
    {
        assert(s@.take(i + 1).drop_last() =~= s@.take(i as int));
        let c = s[i];
        if is_alphanumeric(c) || c == '.' || c == '-' || c == '_' {
            r.push(c);
        }
        i = i + 1;
    }
    assert(s@.take(s@.len() as int) =~= s@);
    r
}

/// The folder entry named `entry` holds the video of file name `filename`:
/// in lower case, the entry's name contains the file name or is contained in
/// it, or contains the file name cleaned to its name characters.
pub open spec fn name_matches(entry: Seq<char>, filename: Seq<char>) -> bool {
    let e = lowercase(entry);
    let f = lowercase(filename);
    let c = lowercase(name_chars(filename));
    contains(e, f) || contains(f, e) || contains(e, c)
}

/// The first of `entries` that holds the video of file name `filename`.
pub open spec fn first_match(entries: Seq<Seq<char>>, filename: Seq<char>) -> Option<int> {
    if exists|i: int| 0 <= i < entries.len() && name_matches(#[trigger] entries[i], filename) {
        Some(
            choose|i: int|
                0 <= i < entries.len() && name_matches(#[trigger] entries[i], filename) && forall|
                    j: int,
                | 0 <= j < i ==> !name_matches(#[trigger] entries[j], filename),
        )
    } else {
        None
    }
}

/// Matching ignores letter case: an entry whose name, in lower case, holds
/// the file name in lower case (in particular one that equals the file name
/// up to case, or equals it outright) matches it, and the entry found is that
/// one or an earlier match.
pub proof fn lemma_case_insensitive_match(entries: Seq<Seq<char>>, filename: Seq<char>, i: int)
    requires
        0 <= i < entries.len(),
        contains(lowercase(entries[i]), lowercase(filename)) || lowercase(entries[i]) == lowercase(
            filename,
        ) || entries[i] == filename,
    ensures
        name_matches(entries[i], filename),
        first_match(entries, filename) matches Some(k) && 0 <= k <= i,
{
    let e = lowercase(entries[i]);
    let f = lowercase(filename);
    if e == f {
        assert(e.subrange(0, f.len() as int) =~= f);
        assert(occurs_at(e, f, 0));
    }
    assert(name_matches(entries[i], filename));
    lemma_first_exists(entries, filename, i);
    let k = choose|k: int|
        0 <= k < entries.len() && name_matches(#[trigger] entries[k], filename) && forall|j: int|
            0 <= j < k ==> !name_matches(#[trigger] entries[j], filename);
    if k > i {
        assert(!name_matches(entries[i], filename));
    }
}

/// A folder entry named exactly as the video's file name is always reported
/// as holding it: the search finds that entry or an earlier match.
pub proof fn lemma_identical_name_found(entries: Seq<Seq<char>>, filename: Seq<char>, i: int)
    requires
        0 <= i < entries.len(),
        entries[i] == filename,
    ensures
        first_match(entries, filename) matches Some(k) && 0 <= k <= i,
{
    lemma_case_insensitive_match(entries, filename, i);
}

/// Where some entry matches, there is a first one.
proof fn lemma_first_exists(entries: Seq<Seq<char>>, filename: Seq<char>, i: int)
    requires
        0 <= i < entries.len(),
        name_matches(entries[i], filename),
    ensures
        exists|k: int|
            0 <= k <= i && name_matches(#[trigger] entries[k], filename) && forall|j: int|
                0 <= j < k ==> !name_matches(#[trigger] entries[j], filename),
    decreases i,
{
    if exists|j: int| 0 <= j < i && name_matches(#[trigger] entries[j], filename) {
        let j = choose|j: int| 0 <= j < i && name_matches(#[trigger] entries[j], filename);
        lemma_first_exists(entries, filename, j);
    } else {
        assert(0 <= i <= i && name_matches(entries[i], filename) && forall|j: int|
            0 <= j < i ==> !name_matches(#[trigger] entries[j], filename));
    }
}

/// The lower-case characters of `s`.
fn lower_chars(s: &str) -> (r: Vec<char>)
    ensures
        r@ == lowercase(s@),
{
    let l = to_lowercase(s);
    chars_of(l.as_str())
}

/// The position, among the names of the folder's entries in the order the
/// folder lists them, of the first that already holds the video of file
/// name `filename`; `None` where none does.
pub fn find_existing_file(filename: &str, entry_names: &Vec<String>) -> (r: Option<usize>)
    ensures
        match first_match(string_views(entry_names@), filename@) {
            Some(i) => r == Some(i as usize),
            None => r is None,
        },
{
    let fv = chars_of(filename);
    let cleaned = string_of(&name_chars_exec(&fv));
    let f = lower_chars(filename);
    let c = lower_chars(cleaned.as_str());
    let ghost names = string_views(entry_names@);
    let mut i: usize = 0;
    while i < entry_names.len()
        invariant
            i <= entry_names@.len(),
            names == string_views(entry_names@),
            f@ == lowercase(filename@),
            c@ == lowercase(name_chars(filename@)),
            forall|j: int| 0 <= j < i ==> !name_matches(#[trigger] names[j], filename@),
        decreases entry_names@.len() - i,
    {
        let e = lower_chars(entry_names[i].as_str());
        assert(names[i as int] == entry_names@[i as int]@);
        if contains_exec(&e, &f) || contains_exec(&f, &e) || contains_exec(&e, &c) {
            assert(name_matches(names[i as int], filename@));
            let ghost k = choose|k: int|
                0 <= k < names.len() && name_matches(#[trigger] names[k], filename@) && forall|
                    j: int,
                | 0 <= j < k ==> !name_matches(#[trigger] names[j], filename@);
            assert(k == i) by {
                if k < i {
                    assert(!name_matches(names[k], filename@));
                }
                if k > i {
                    assert(!name_matches(names[i as int], filename@));
                }
            }
            return Some(i);
        }
        i = i + 1;
    }
    None
}

} // verus!
