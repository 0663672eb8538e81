//! The matcher: literal (non-regex) substring containment over the
//! characters of a line, and the global replacement that wraps every
//! occurrence of the pattern in the highlight markers.

use vstd::prelude::*;
use vstd::string::*;

verus! {

/// The pattern occurs in the line starting at character position `i`.
pub open spec fn matches_at(line: Seq<char>, pat: Seq<char>, i: int) -> bool {
    &&& 0 <= i
    &&& i + pat.len() <= line.len()
    &&& line.subrange(i, i + pat.len()) == pat
}

/// The line contains the pattern somewhere. An empty pattern is contained in
/// every line, at position zero.
pub open spec fn contains_pat(line: Seq<char>, pat: Seq<char>) -> bool {
    exists|i: int| matches_at(line, pat, i)
}

/// The line scanned from position `i` on, with every occurrence of a
/// non-empty pattern replaced by `rep`, greedily from the left.
pub open spec fn replaced_from(line: Seq<char>, pat: Seq<char>, rep: Seq<char>, i: int) -> Seq<
    char,
>
    decreases line.len() - i,
{
    if i < 0 || i >= line.len() {
        Seq::empty()
    } else if pat.len() > 0 && matches_at(line, pat, i) {
        rep + replaced_from(line, pat, rep, i + pat.len())
    } else {
        seq![line[i]] + replaced_from(line, pat, rep, i + 1)
    }
}

/// The whole line with every occurrence of the pattern replaced by `rep`.
/// For an empty pattern the zero-length match at the start of the line is
/// replaced, so `rep` is inserted there once and the line follows unchanged.
pub open spec fn replaced(line: Seq<char>, pat: Seq<char>, rep: Seq<char>) -> Seq<char> {
    if pat.len() == 0 {
        rep + line
    } else {
        replaced_from(line, pat, rep, 0)
    }
}

/// Whether the pattern occurs at character position `i` of the line.
fn match_at(line: &str, pat: &str, i: usize) -> (b: bool)
    requires
        i + pat@.len() <= line@.len(),
    ensures
        b == matches_at(line@, pat@, i as int),
{
    let n = line.unicode_len();
    let m = pat.unicode_len();
    let mut j: usize = 0;
    while j < m
        invariant
            j <= m,
            n == line@.len(),
            m == pat@.len(),
            i + m <= n,
            forall|k: int| 0 <= k < j ==> line@[i + k] == pat@[k],
        decreases m - j,
    {
        if line.get_char(i + j) != pat.get_char(j) {
            proof {
                assert(line@.subrange(i as int, i + pat@.len())[j as int] == line@[i + j]);
            }
            return false;
        }
        j = j + 1;
    }
    proof {
        assert(line@.subrange(i as int, i + pat@.len()) =~= pat@);
    }
    true
}

/// Whether the line contains the pattern as a literal substring.
pub fn line_matches(line: &str, pat: &str) -> (b: bool)
    ensures
        b == contains_pat(line@, pat@),
{
    let n = line.unicode_len();
    let m = pat.unicode_len();
    if m > n {
        proof {
            assert(forall|i: int| !matches_at(line@, pat@, i));
        }
        return false;
    }
    if m == 0 {
        proof {
            assert(pat@ =~= Seq::<char>::empty());
            lemma_empty_pattern_matches(line@);
        }
        return true;
    }
    let mut i: usize = 0;
    while i <= n - m
        invariant
            0 < m <= n,
            n == line@.len(),
            m == pat@.len(),
            i <= n - m + 1,
            forall|k: int| 0 <= k < i ==> !matches_at(line@, pat@, k),
        decreases n - i,
    {
        if match_at(line, pat, i) {
            return true;
        }
        i = i + 1;
    }
    proof {
        assert(forall|k: int| i <= k ==> !matches_at(line@, pat@, k));
    }
    false
}

/// The line with every occurrence of the pattern replaced by `rep`.
pub fn replace_pattern(line: &str, pat: &str, rep: &str) -> (out: String)
    ensures
        out@ == replaced(line@, pat@, rep@),
{
    let n = line.unicode_len();
    let m = pat.unicode_len();
    if m == 0 {
        proof {
            assert(pat@.len() == 0);
        }
        return String::from_str(rep).concat(line);
    }
    let mut out = String::new();
    let mut i: usize = 0;
    proof {
        assert(out@ + replaced_from(line@, pat@, rep@, 0) =~= replaced_from(line@, pat@, rep@, 0));
    }
    while i < n
        invariant
            i <= n,
            n == line@.len(),
            m == pat@.len(),
            m > 0,
            replaced_from(line@, pat@, rep@, 0) == out@ + replaced_from(
                line@,
                pat@,
                rep@,
                i as int,
            ),
        decreases n - i,
    {
        let ghost prev = out@;
        if m <= n - i && match_at(line, pat, i) {
            out.append(rep);
            proof {
                assert((prev + rep@) + replaced_from(line@, pat@, rep@, i + m) =~= prev + (rep@
                    + replaced_from(line@, pat@, rep@, i + m)));
            }
            i = i + m;
        } else {
            proof {
                assert(!matches_at(line@, pat@, i as int));
            }
            let piece = line.substring_char(i, i + 1);
            out.append(piece);
            proof {
                assert(piece@ =~= seq![line@[i as int]]);
                assert((prev + piece@) + replaced_from(line@, pat@, rep@, i + 1) =~= prev + (
                seq![line@[i as int]] + replaced_from(line@, pat@, rep@, i + 1)));
            }
            i = i + 1;
        }
    }
    proof {
        assert(replaced_from(line@, pat@, rep@, n as int) =~= Seq::<char>::empty());
        assert(out@ + Seq::<char>::empty() =~= out@);
    }
    out
}

/// An empty pattern matches every line.
pub proof fn lemma_empty_pattern_matches(line: Seq<char>)
    ensures
        contains_pat(line, Seq::<char>::empty()),
{
    assert(line.subrange(0, 0) =~= Seq::<char>::empty());
    assert(matches_at(line, Seq::<char>::empty(), 0));
}

/// Wherever a non-empty pattern occurs in a line, the replaced line contains
/// the replacement text: with highlighting on, the printed line contains the
/// pattern wrapped in the highlight markers.
pub proof fn lemma_match_is_highlighted(line: Seq<char>, pat: Seq<char>, rep: Seq<char>)
    requires
        pat.len() > 0,
        contains_pat(line, pat),
    ensures
        contains_pat(replaced(line, pat, rep), rep),
{
    let j = choose|j: int| matches_at(line, pat, j);
    lemma_replaced_from_contains(line, pat, rep, 0, j);
}

proof fn lemma_replaced_from_contains(line: Seq<char>, pat: Seq<char>, rep: Seq<char>, i: int, j: int)
    requires
        pat.len() > 0,
        0 <= i <= j,
        matches_at(line, pat, j),
    ensures
        contains_pat(replaced_from(line, pat, rep, i), rep),
    decreases line.len() - i,
{
    let whole = replaced_from(line, pat, rep, i);
    assert(j + pat.len() <= line.len());
    assert(i < line.len());
    if matches_at(line, pat, i) {
        assert(whole == rep + replaced_from(line, pat, rep, i + pat.len()));
        assert(whole.subrange(0, rep.len() as int) =~= rep);
        assert(matches_at(whole, rep, 0));
    } else {
        assert(j > i);
        lemma_replaced_from_contains(line, pat, rep, i + 1, j);
        let rest = replaced_from(line, pat, rep, i + 1);
        let k = choose|k: int| matches_at(rest, rep, k);
        assert(whole == seq![line[i]] + rest);
        assert(whole.subrange(k + 1, k + 1 + rep.len()) =~= rest.subrange(k, k + rep.len()));
        assert(matches_at(whole, rep, k + 1));
    }
}

} // verus!
