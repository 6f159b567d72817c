//! Small string helpers: trusted declarations for the two std string
//! operations the library relies on, and a verified conversion from a
//! string slice to a vector of its characters.

use vstd::prelude::*;
use vstd::string::StrSliceExecFns;

verus! {

/// The Unicode lowercase form of a character sequence.
pub uninterp spec fn lower_of(s: Seq<char>) -> Seq<char>;

/// Relies on str::to_lowercase: the result depends on the input characters
/// alone (the Unicode lowercase mapping of each character in turn), and it
/// is empty exactly when the input is empty.
#[verifier::external_body]
pub(crate) fn fold_lower(s: &str) -> (r: String)
    ensures
        r@ == lower_of(s@),
        (r@.len() == 0) == (s@.len() == 0),
{
    s.to_lowercase()
}

/// True exactly when the two slices hold the same characters, decided by
/// comparing them one by one.
pub(crate) fn str_eq(a: &str, b: &str) -> (r: bool)
    ensures
        r == (a@ == b@),
{
    let n = a.unicode_len();
    let m = b.unicode_len();
    if n != m {
        return false;
    }
    let mut i: usize = 0;
    while i < n
        invariant
            n == a@.len(),
            n == b@.len(),
            i <= n,
            forall|j: int| 0 <= j < i ==> a@[j] == b@[j],
        decreases n - i,
    {
        if a.get_char(i) != b.get_char(i) {
            return false;
        }
        i = i + 1;
    }
    proof {
        assert(a@ =~= b@);
    }
    true
}

/// Index of the last path separator (`'/'` or `'\\'`) in `s`, or -1 if
/// there is none.
pub open spec fn last_sep(s: Seq<char>) -> int
    decreases s.len(),
{
    if s.len() == 0 {
        -1
    } else if s.last() == '/' || s.last() == '\\' {
        s.len() - 1
    } else {
        last_sep(s.drop_last())
    }
}

/// What follows the last path separator of `s` (all of `s` if none).
pub open spec fn file_tail(s: Seq<char>) -> Seq<char> {
    s.skip(last_sep(s) + 1)
}

/// The part of `path` after its last path separator; the whole of it when
/// it has none, and empty when it ends with one.
pub fn file_tail_of(path: &str) -> (r: String)
    ensures
        r@ == file_tail(path@),
{
    let chars = chars_of(path);
    let n = chars.len();
    let mut cut: usize = 0;
    let mut j: usize = 0;
    proof {
        assert(path@.take(0) =~= Seq::<char>::empty());
    }
    while j < n
        invariant
            n == path@.len(),
            chars@ == path@,
            j <= n,
            cut == last_sep(path@.take(j as int)) + 1,
            cut <= j,
        decreases n - j,
    {
        let c = chars[j];
        proof {
            assert(path@.take(j + 1).drop_last() =~= path@.take(j as int));
            assert(path@.take(j + 1).last() == path@[j as int]);
        }
        if c == '/' || c == '\\' {
            cut = j + 1;
        }
        j = j + 1;
    }
    proof {
        assert(path@.take(n as int) =~= path@);
        assert(path@.subrange(cut as int, n as int) =~= path@.skip(cut as int));
    }
    path.substring_char(cut, n).to_owned()
}

/// The characters of `s`, collected into a vector.
pub fn chars_of(s: &str) -> (v: Vec<char>)
    ensures
        v@ == s@,
{
    let n = s.unicode_len();
    let mut v: Vec<char> = Vec::new();
    let mut i: usize = 0;
    while i < n
        invariant
            n == s@.len(),
            i <= n,
            v@ == s@.take(i as int),
        decreases n - i,
    {
        let c = s.get_char(i);
        v.push(c);
        i = i + 1;
        proof {
            assert(v@ =~= s@.take(i as int));
        }
    }
    proof {
        assert(s@.take(n as int) =~= s@);
    }
    v
}

} // verus!
