//! The printer: highlight markers, decimal line numbers, the per-line output
//! format, the scan over all lines, and the fixed usage text.

use vstd::prelude::*;
use vstd::string::*;
use crate::args::CLOption;
use crate::matcher::contains_pat;
use crate::matcher::replaced;
use crate::matcher::line_matches;
use crate::matcher::replace_pattern;

verus! {

/// The marker put in front of each occurrence of the pattern: the ANSI
/// bold-red start sequence, or nothing when highlighting is off.
pub open spec fn spec_prefix(opts: Seq<CLOption>) -> Seq<char> {
    if opts.contains(CLOption::NoHighlight) {
        Seq::empty()
    } else {
        "\x1b[1;31m"@
    }
}

/// The marker put after each occurrence of the pattern: the ANSI reset
/// sequence, or nothing when highlighting is off.
pub open spec fn spec_suffix(opts: Seq<CLOption>) -> Seq<char> {
    if opts.contains(CLOption::NoHighlight) {
        Seq::empty()
    } else {
        "\x1b[0m"@
    }
}

/// What each occurrence of the pattern is replaced with on a matching line.
pub open spec fn replacement_text(opts: Seq<CLOption>, pat: Seq<char>) -> Seq<char> {
    spec_prefix(opts) + pat + spec_suffix(opts)
}

/// The decimal digit character for a value below ten.
pub open spec fn dec_digit(d: nat) -> char {
    if d == 0 {
        '0'
    } else if d == 1 {
        '1'
    } else if d == 2 {
        '2'
    } else if d == 3 {
        '3'
    } else if d == 4 {
        '4'
    } else if d == 5 {
        '5'
    } else if d == 6 {
        '6'
    } else if d == 7 {
        '7'
    } else if d == 8 {
        '8'
    } else {
        '9'
    }
}

/// The usual decimal rendering of a number, most significant digit first,
/// without leading zeros (a lone zero for zero itself).
pub open spec fn dec_str(n: nat) -> Seq<char>
    decreases n,
{
    if n < 10 {
        seq![dec_digit(n)]
    } else {
        dec_str(n / 10) + seq![dec_digit(n % 10)]
    }
}

/// One printed output line: the replaced line, prefixed by the displayed
/// line number and a `"| "` separator when line numbers were requested. The
/// displayed number is the zero-based storage index of the line.
pub open spec fn formatted_line(
    line: Seq<char>,
    pat: Seq<char>,
    rep: Seq<char>,
    show: bool,
    idx: nat,
) -> Seq<char> {
    if show {
        dec_str(idx) + "| "@ + replaced(line, pat, rep)
    } else {
        replaced(line, pat, rep)
    }
}

/// The printed output for the lines from storage index `idx` on: one
/// formatted line per line that contains the pattern, in file order.
pub open spec fn output_from(
    lines: Seq<Seq<char>>,
    pat: Seq<char>,
    rep: Seq<char>,
    show: bool,
    idx: nat,
) -> Seq<Seq<char>>
    decreases lines.len(),
{
    if lines.len() == 0 {
        Seq::empty()
    } else {
        let rest = output_from(lines.drop_first(), pat, rep, show, idx + 1);
        if contains_pat(lines[0], pat) {
            seq![formatted_line(lines[0], pat, rep, show, idx)] + rest
        } else {
            rest
        }
    }
}

/// The highlight marker pair for the given flags: both empty when
/// highlighting is disabled, the fixed ANSI sequences otherwise.
pub fn highlight_markers(options: &Vec<CLOption>) -> (m: (String, String))
    ensures
        m.0@ == spec_prefix(options@),
        m.1@ == spec_suffix(options@),
{
    if crate::args::has_option(options, CLOption::NoHighlight) {
        (String::new(), String::new())
    } else {
        (String::from_str("\x1b[1;31m"), String::from_str("\x1b[0m"))
    }
}

/// The decimal rendering of a number as a string.
pub fn number_string(n: usize) -> (s: String)
    ensures
        s@ == dec_str(n as nat),
{
    let mut m = n;
    let mut out = String::new();
    if m < 10 {
        return String::from_str(digit_str(m));
    }
    while m > 0
        invariant
            dec_str(n as nat) == if m > 0 {
                dec_str(m as nat) + out@
            } else {
                out@
            },
        decreases m,
    {
        let ghost prev = out@;
        let d = m % 10;
        out = String::from_str(digit_str(d)).concat(out.as_str());
        proof {
            assert(out@ =~= seq![dec_digit(d as nat)] + prev);
            if m >= 10 {
                assert(dec_str(m as nat) == dec_str((m as nat) / 10) + seq![
                    dec_digit((m as nat) % 10),
                ]);
                assert(dec_str((m as nat) / 10) + (seq![dec_digit((m as nat) % 10)] + prev)
                    =~= (dec_str((m as nat) / 10) + seq![dec_digit((m as nat) % 10)]) + prev);
            } else {
                assert(dec_str(m as nat) == seq![dec_digit(m as nat)]);
            }
            assert((m / 10) as nat == (m as nat) / 10);
            assert(d as nat == (m as nat) % 10);
        }
        m = m / 10;
    }
    out
}

/// The one-character string for a decimal digit value.
fn digit_str(d: usize) -> (s: &'static str)
    requires
        d < 10,
    ensures
        s@ == seq![dec_digit(d as nat)],
{
    proof {
        reveal_strlit("0");
        reveal_strlit("1");
        reveal_strlit("2");
        reveal_strlit("3");
        reveal_strlit("4");
        reveal_strlit("5");
        reveal_strlit("6");
        reveal_strlit("7");
        reveal_strlit("8");
        reveal_strlit("9");
    }
    let s = if d == 0 {
        "0"
    } else if d == 1 {
        "1"
    } else if d == 2 {
        "2"
    } else if d == 3 {
        "3"
    } else if d == 4 {
        "4"
    } else if d == 5 {
        "5"
    } else if d == 6 {
        "6"
    } else if d == 7 {
        "7"
    } else if d == 8 {
        "8"
    } else {
        "9"
    };
    proof {
        assert(s@ =~= seq![dec_digit(d as nat)]);
    }
    s
}

/// Scans the lines in storage order and returns the lines to print: for each
/// line that contains the pattern, the line with every occurrence of the
/// pattern wrapped in the highlight markers, prefixed by its displayed line
/// number when line numbers were requested. Lines that do not match yield
/// nothing.
pub fn scan_lines(lines: &Vec<String>, pattern: &str, options: &Vec<CLOption>) -> (out: Vec<
    String,
>)
    ensures
        out.deep_view() == output_from(
            lines.deep_view(),
            pattern@,
            replacement_text(options@, pattern@),
            options@.contains(CLOption::ShowLineNumbers),
            0,
        ),
{
    let ghost lv = lines.deep_view();
    let (pre, suf) = highlight_markers(options);
    let rep = pre.concat(pattern).concat(suf.as_str());
    let show = crate::args::has_option(options, CLOption::ShowLineNumbers);
    let ghost repv = replacement_text(options@, pattern@);
    proof {
        assert(rep@ == repv);
    }
    let n = lines.len();
    let mut out: Vec<String> = Vec::new();
    let mut i: usize = 0;
    proof {
        assert(lv.skip(0) =~= lv);
        assert(out.deep_view() + output_from(lv, pattern@, repv, show, 0) =~= output_from(
            lv,
            pattern@,
            repv,
            show,
            0,
        ));
    }
    while i < n
        invariant
            i <= n,
            n == lines@.len(),
            lv == lines.deep_view(),
            rep@ == repv,
            output_from(lv, pattern@, repv, show, 0) == out.deep_view() + output_from(
                lv.skip(i as int),
                pattern@,
                repv,
                show,
                i as nat,
            ),
        decreases n - i,
    {
        proof {
            assert(lv.skip(i as int)[0] == lv[i as int]);
            assert(lv[i as int] == lines@[i as int]@);
            assert(lv.skip(i as int).drop_first() =~= lv.skip(i as int + 1));
        }
        let line = &lines[i];
        if line_matches(line.as_str(), pattern) {
            let body = replace_pattern(line.as_str(), pattern, rep.as_str());
            let ghost prev = out.deep_view();
            if show {
                let printed = number_string(i).concat("| ").concat(body.as_str());
                proof {
                    assert(printed@ == formatted_line(lv[i as int], pattern@, repv, show, i as nat));
                }
                out.push(printed);
            } else {
                proof {
                    assert(body@ == formatted_line(lv[i as int], pattern@, repv, show, i as nat));
                }
                out.push(body);
            }
            proof {
                assert(out.deep_view() =~= prev + seq![
                    formatted_line(lv[i as int], pattern@, repv, show, i as nat),
                ]);
                assert((prev + seq![formatted_line(lv[i as int], pattern@, repv, show, i as nat)])
                    + output_from(lv.skip(i as int + 1), pattern@, repv, show, i as nat + 1)
                    =~= prev + (seq![formatted_line(lv[i as int], pattern@, repv, show, i as nat)]
                    + output_from(lv.skip(i as int + 1), pattern@, repv, show, i as nat + 1)));
            }
        }
        i = i + 1;
    }
    proof {
        assert(lv.skip(n as int) =~= Seq::<Seq<char>>::empty());
        assert(out.deep_view() + Seq::<Seq<char>>::empty() =~= out.deep_view());
    }
    out
}

/// The fixed usage text, printed verbatim (with no trailing newline) when
/// usage is requested.
pub fn usage_text() -> (s: String)
    ensures
        s@
            == "Usage: grepc <pattern> <path> [OPTIONS]\nOptions:\n-l: Show line numbers\n-n: Don't highlight pattern\n-r Use regex (unimplemented)\n-h: Print this usage message"@,
{
    String::from_str(
        "Usage: grepc <pattern> <path> [OPTIONS]\nOptions:\n-l: Show line numbers\n-n: Don't highlight pattern\n-r Use regex (unimplemented)\n-h: Print this usage message",
    )
}

/// With an empty pattern every line matches, so the scan prints one output
/// line for every input line.
pub proof fn lemma_empty_pattern_prints_all(
    lines: Seq<Seq<char>>,
    pat: Seq<char>,
    rep: Seq<char>,
    show: bool,
    idx: nat,
)
    requires
        pat.len() == 0,
    ensures
        output_from(lines, pat, rep, show, idx).len() == lines.len(),
    decreases lines.len(),
{
    if lines.len() > 0 {
        crate::matcher::lemma_empty_pattern_matches(lines[0]);
        assert(pat =~= Seq::<char>::empty());
        lemma_empty_pattern_prints_all(lines.drop_first(), pat, rep, show, idx + 1);
    }
}

} // verus!
