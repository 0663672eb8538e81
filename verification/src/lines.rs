//! The file loader's verified half: splitting loaded text into an ordered
//! line sequence. A line is the text up to but excluding a terminating
//! newline, with a carriage return before that newline stripped as well;
//! a trailing unterminated final line is kept as it stands, and content
//! ending exactly at a newline yields no trailing empty line.

use vstd::prelude::*;
use vstd::string::*;

verus! {

/// A finished line with a carriage return before its newline stripped.
pub open spec fn strip_cr(l: Seq<char>) -> Seq<char> {
    if l.len() > 0 && l[l.len() - 1] == '\r' {
        l.drop_last()
    } else {
        l
    }
}

/// The lines of `s`, with `cur` the part of the current line read so far.
pub open spec fn split_acc(s: Seq<char>, cur: Seq<char>) -> Seq<Seq<char>>
    decreases s.len(),
{
    if s.len() == 0 {
        if cur.len() == 0 {
            Seq::empty()
        } else {
            seq![cur]
        }
    } else if s[0] == '\n' {
        seq![strip_cr(cur)] + split_acc(s.drop_first(), Seq::empty())
    } else {
        split_acc(s.drop_first(), cur.push(s[0]))
    }
}

/// The ordered line sequence of a whole text.
pub open spec fn split_lines_spec(s: Seq<char>) -> Seq<Seq<char>> {
    split_acc(s, Seq::empty())
}

/// Splits loaded file content into its lines.
pub fn split_lines(content: &str) -> (lines: Vec<String>)
    ensures
        lines.deep_view() == split_lines_spec(content@),
{
    let n = content.unicode_len();
    let mut out: Vec<String> = Vec::new();
    let mut start: usize = 0;
    let mut i: usize = 0;
    proof {
        assert(content@.skip(0) =~= content@);
        assert(content@.subrange(0, 0) =~= Seq::<char>::empty());
        assert(out.deep_view() + split_acc(content@, Seq::empty()) =~= split_acc(
            content@,
            Seq::empty(),
        ));
    }
    while i < n
        invariant
            start <= i <= n,
            n == content@.len(),
            split_lines_spec(content@) == out.deep_view() + split_acc(
                content@.skip(i as int),
                content@.subrange(start as int, i as int),
            ),
        decreases n - i,
    {
        let ghost cur = content@.subrange(start as int, i as int);
        proof {
            assert(content@.skip(i as int)[0] == content@[i as int]);
            assert(content@.skip(i as int).drop_first() =~= content@.skip(i as int + 1));
        }
        let c = content.get_char(i);
        if c == '\n' {
            let piece = if i > start && content.get_char(i - 1) == '\r' {
                content.substring_char(start, i - 1)
            } else {
                content.substring_char(start, i)
            };
            proof {
                if i > start && content@[i - 1] == '\r' {
                    assert(cur[cur.len() - 1] == content@[i - 1]);
                    assert(piece@ =~= strip_cr(cur));
                } else {
                    assert(piece@ =~= strip_cr(cur));
                }
            }
            let ghost prev = out.deep_view();
            out.push(String::from_str(piece));
            proof {
                assert(out.deep_view() =~= prev + seq![strip_cr(cur)]);
                assert((prev + seq![strip_cr(cur)]) + split_acc(
                    content@.skip(i as int + 1),
                    Seq::empty(),
                ) =~= prev + (seq![strip_cr(cur)] + split_acc(
                    content@.skip(i as int + 1),
                    Seq::empty(),
                )));
                assert(content@.subrange(i as int + 1, i as int + 1) =~= Seq::<char>::empty());
            }
            start = i + 1;
        } else {
            proof {
                assert(cur.push(content@[i as int]) =~= content@.subrange(
                    start as int,
                    i as int + 1,
                ));
            }
        }
        i = i + 1;
    }
    proof {
        assert(content@.skip(n as int) =~= Seq::<char>::empty());
    }
    if start < n {
        let last = content.substring_char(start, n);
        let ghost prev = out.deep_view();
        out.push(String::from_str(last));
        proof {
            assert(out.deep_view() =~= prev + seq![content@.subrange(start as int, n as int)]);
        }
    } else {
        proof {
            assert(content@.subrange(start as int, n as int).len() == 0);
            assert(out.deep_view() + Seq::<Seq<char>>::empty() =~= out.deep_view());
        }
    }
    out
}

} // verus!
