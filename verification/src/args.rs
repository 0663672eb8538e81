//! The argument parser. It separates positional tokens (pattern, path) from
//! single-dash option clusters, validates every cluster character, and
//! enforces the positional count unless usage was requested. A second step
//! decides, from the accumulated flags alone, whether the run prints usage,
//! searches, or fails because regex matching was requested.

use vstd::prelude::*;
use vstd::string::*;
use crate::errors::GrepError;

verus! {

/// The closed set of command-line flags. Duplicates are legal and kept.
#[derive(Debug, Clone, Copy, PartialEq, Eq, Structural)]
pub enum CLOption {
    ShowLineNumbers,
    NoHighlight,
    PrintUsage,
    UseRegex,
}

/// What a run does once the arguments have parsed: print the usage text and
/// stop, or search the file.
#[derive(Debug, Clone, Copy, PartialEq, Eq, Structural)]
pub enum RunPlan {
    ShowUsage,
    Search,
}

/// The characters accepted inside an option cluster.
pub open spec fn valid_option_char(c: char) -> bool {
    c == 'l' || c == 'h' || c == 'n' || c == 'r' || c == '-'
}

/// The flag one cluster character maps to. A `'-'` maps to no flag at all and
/// is filtered out before this function applies.
pub open spec fn option_of_char(c: char) -> CLOption {
    if c == 'l' {
        CLOption::ShowLineNumbers
    } else if c == 'h' {
        CLOption::PrintUsage
    } else if c == 'n' {
        CLOption::NoHighlight
    } else {
        CLOption::UseRegex
    }
}

/// Every character of the cluster is an accepted option character.
pub open spec fn cluster_ok(s: Seq<char>) -> bool {
    forall|i: int| 0 <= i < s.len() ==> valid_option_char(#[trigger] s[i])
}

/// The flags one cluster yields, in order of appearance. `'-'` characters
/// yield nothing, and so do the unrecognized characters of an invalid cluster
/// (whose flags are discarded anyway).
pub open spec fn cluster_options(s: Seq<char>) -> Seq<CLOption>
    decreases s.len(),
{
    if s.len() == 0 {
        Seq::empty()
    } else {
        let rest = cluster_options(s.drop_first());
        if s[0] == '-' || !valid_option_char(s[0]) {
            rest
        } else {
            seq![option_of_char(s[0])] + rest
        }
    }
}

/// A token that begins with a dash is an option cluster.
pub open spec fn is_cluster(t: Seq<char>) -> bool {
    t.len() > 0 && t[0] == '-'
}

/// The tokens after the program-name token, which is always skipped.
pub open spec fn rest_tokens(args: Seq<Seq<char>>) -> Seq<Seq<char>> {
    if args.len() == 0 {
        args
    } else {
        args.drop_first()
    }
}

/// The positional tokens among `ts`, in order of appearance.
pub open spec fn positionals(ts: Seq<Seq<char>>) -> Seq<Seq<char>>
    decreases ts.len(),
{
    if ts.len() == 0 {
        Seq::empty()
    } else if is_cluster(ts[0]) {
        positionals(ts.drop_first())
    } else {
        seq![ts[0]] + positionals(ts.drop_first())
    }
}

/// All flags of all clusters among `ts`, cluster by cluster, in order of
/// appearance; duplicates are not removed.
pub open spec fn all_options(ts: Seq<Seq<char>>) -> Seq<CLOption>
    decreases ts.len(),
{
    if ts.len() == 0 {
        Seq::empty()
    } else if is_cluster(ts[0]) {
        cluster_options(ts[0]) + all_options(ts.drop_first())
    } else {
        all_options(ts.drop_first())
    }
}

/// Every cluster among the tokens is made of accepted option characters.
pub open spec fn clusters_ok(ts: Seq<Seq<char>>) -> bool {
    forall|i: int| 0 <= i < ts.len() ==> (is_cluster(#[trigger] ts[i]) ==> cluster_ok(ts[i]))
}

impl CLOption {
    /// Parses one option cluster. Each character after (or among) the dashes
    /// maps to a flag; the whole cluster is scanned before an unrecognized
    /// character is reported, and a failing cluster applies no flags.
    pub fn parse_options(arg: &str) -> (r: Result<Vec<CLOption>, GrepError>)
        ensures
            match r {
                Ok(opts) => cluster_ok(arg@) && opts@ == cluster_options(arg@),
                Err(e) => !cluster_ok(arg@) && (e matches GrepError::InvalidOption(t)
                    && t@ == arg@),
            },
    {
        let n = arg.unicode_len();
        let mut opts: Vec<CLOption> = Vec::new();
        let mut invalid = false;
        let mut i: usize = 0;
        proof {
            assert(arg@.skip(0) =~= arg@);
            assert(opts@ + cluster_options(arg@) =~= cluster_options(arg@));
        }
        while i < n
            invariant
                i <= n,
                n == arg@.len(),
                cluster_options(arg@) == opts@ + cluster_options(arg@.skip(i as int)),
                invalid <==> exists|k: int| 0 <= k < i && !valid_option_char(#[trigger] arg@[k]),
            decreases n - i,
        {
            proof {
                assert(arg@.skip(i as int)[0] == arg@[i as int]);
                assert(arg@.skip(i as int).drop_first() =~= arg@.skip(i as int + 1));
            }
            let ghost prev = opts@;
            let c = arg.get_char(i);
            if c == 'l' {
                opts.push(CLOption::ShowLineNumbers);
            } else if c == 'h' {
                opts.push(CLOption::PrintUsage);
            } else if c == 'n' {
                opts.push(CLOption::NoHighlight);
            } else if c == 'r' {
                opts.push(CLOption::UseRegex);
            } else if c != '-' {
                invalid = true;
            }
            proof {
                if c == '-' || !valid_option_char(c) {
                    assert(opts@ == prev);
                } else {
                    assert(opts@ =~= prev + seq![option_of_char(c)]);
                    assert(prev + (seq![option_of_char(c)] + cluster_options(arg@.skip(i as int + 1)))
                        =~= opts@ + cluster_options(arg@.skip(i as int + 1)));
                }
            }
            i = i + 1;
        }
        proof {
            assert(arg@.skip(n as int) =~= Seq::<char>::empty());
            assert(opts@ + cluster_options(arg@.skip(n as int)) =~= opts@);
        }
        if invalid {
            Err(GrepError::InvalidOption(String::from_str(arg)))
        } else {
            Ok(opts)
        }
    }
}

/// Parses the raw process argument list, program-name token included.
///
/// Tokens that begin with a dash are option clusters; all others are
/// positional and kept in order. The first invalid cluster fails the whole
/// parse. After all tokens, a positional count other than two fails unless
/// the usage flag was seen anywhere.
pub fn parse_args(args: Vec<String>) -> (r: Result<(Vec<String>, Vec<CLOption>), GrepError>)
    ensures
        ({
            let ts = rest_tokens(args.deep_view());
            // With valid clusters, a wrong positional count and no usage
            // request fail exactly with the usage error, and a usage request
            // always parses, whatever the positional count.
            &&& (clusters_ok(ts) && positionals(ts).len() != 2 && !all_options(ts).contains(
                CLOption::PrintUsage,
            ) ==> (r matches Err(e) && e is InvalidUsage))
            &&& (clusters_ok(ts) && all_options(ts).contains(CLOption::PrintUsage) ==> r is Ok)
            &&& match r {
                Ok(pr) => {
                    &&& clusters_ok(ts)
                    &&& pr.0.deep_view() == positionals(ts)
                    &&& pr.1@ == all_options(ts)
                    &&& (positionals(ts).len() == 2 || all_options(ts).contains(
                        CLOption::PrintUsage,
                    ))
                },
                Err(e) => match e {
                    GrepError::InvalidOption(t) => exists|i: int|
                        {
                            &&& 0 <= i < ts.len()
                            &&& is_cluster(#[trigger] ts[i])
                            &&& !cluster_ok(ts[i])
                            &&& t@ == ts[i]
                            &&& forall|j: int|
                                0 <= j < i ==> (is_cluster(#[trigger] ts[j]) ==> cluster_ok(ts[j]))
                        },
                    GrepError::InvalidUsage => {
                        &&& clusters_ok(ts)
                        &&& positionals(ts).len() != 2
                        &&& !all_options(ts).contains(CLOption::PrintUsage)
                    },
                    _ => false,
                },
            }
        }),
{
    let ghost ts = rest_tokens(args.deep_view());
    let n = args.len();
    let mut pos: Vec<String> = Vec::new();
    let mut opts: Vec<CLOption> = Vec::new();
    let mut i: usize = 1;
    proof {
        assert(ts.skip(0) =~= ts);
        assert(pos.deep_view() + positionals(ts) =~= positionals(ts));
        assert(opts@ + all_options(ts) =~= all_options(ts));
    }
    while i < n
        invariant
            1 <= i,
            n == args@.len(),
            ts == rest_tokens(args.deep_view()),
            n > 0 ==> i - 1 <= ts.len(),
            n == 0 ==> i == 1,
            positionals(ts) == pos.deep_view() + positionals(ts.skip(i - 1)),
            all_options(ts) == opts@ + all_options(ts.skip(i - 1)),
            forall|j: int| 0 <= j < i - 1 ==> (is_cluster(#[trigger] ts[j]) ==> cluster_ok(ts[j])),
        decreases n - i,
    {
        let ghost k = i - 1;
        proof {
            assert(ts.len() == args.deep_view().len() - 1);
            assert(ts[k] == args.deep_view()[i as int]);
            assert(args.deep_view()[i as int] == args@[i as int]@);
            assert(ts.skip(k)[0] == ts[k]);
            assert(ts.skip(k).drop_first() =~= ts.skip(k + 1));
        }
        let t = &args[i];
        let starts_dash = t.unicode_len() > 0 && t.get_char(0) == '-';
        if starts_dash {
            assert(is_cluster(ts[k]));
            match CLOption::parse_options(t.as_str()) {
                Ok(cluster) => {
                    let ghost prev = opts@;
                    let mut cluster = cluster;
                    opts.append(&mut cluster);
                    proof {
                        assert(opts@ =~= prev + cluster_options(ts[k]));
                        assert((prev + cluster_options(ts[k])) + all_options(ts.skip(k + 1))
                            =~= prev + (cluster_options(ts[k]) + all_options(ts.skip(k + 1))));
                    }
                },
                Err(e) => {
                    proof {
                        assert(!cluster_ok(ts[k]));
                    }
                    return Err(e);
                },
            }
        } else {
            assert(!is_cluster(ts[k]));
            let ghost prevp = pos.deep_view();
            pos.push(t.clone());
            proof {
                assert(pos.deep_view() =~= prevp + seq![ts[k]]);
                assert((prevp + seq![ts[k]]) + positionals(ts.skip(k + 1)) =~= prevp + (seq![ts[k]]
                    + positionals(ts.skip(k + 1))));
            }
        }
        i = i + 1;
    }
    proof {
        if n > 0 {
            assert(i - 1 == ts.len());
        }
        assert(ts.skip(ts.len() as int) =~= Seq::<Seq<char>>::empty());
        assert(pos.deep_view() + positionals(ts.skip(ts.len() as int)) =~= pos.deep_view());
        assert(opts@ + all_options(ts.skip(ts.len() as int)) =~= opts@);
    }
    if pos.len() != 2 && !has_option(&opts, CLOption::PrintUsage) {
        return Err(GrepError::InvalidUsage);
    }
    proof {
        assert(pos.deep_view().len() == pos@.len());
    }
    Ok((pos, opts))
}

/// Whether the accumulated flag sequence holds the given flag.
pub fn has_option(options: &Vec<CLOption>, o: CLOption) -> (b: bool)
    ensures
        b == options@.contains(o),
{
    let n = options.len();
    let mut i: usize = 0;
    while i < n
        invariant
            i <= n,
            n == options@.len(),
            forall|k: int| 0 <= k < i ==> options@[k] != o,
        decreases n - i,
    {
        if options[i] == o {
            return true;
        }
        i = i + 1;
    }
    false
}

/// Decides what the run does from the flags alone, before any file is
/// touched: a regex request fails first, then a usage request wins over the
/// search, exactly in that order.
pub fn plan_run(options: &Vec<CLOption>) -> (r: Result<RunPlan, GrepError>)
    ensures
        match r {
            Ok(p) => {
                &&& !options@.contains(CLOption::UseRegex)
                &&& (p == RunPlan::ShowUsage <==> options@.contains(CLOption::PrintUsage))
            },
            Err(e) => options@.contains(CLOption::UseRegex) && e is RegexUnsupported,
        },
{
    if has_option(options, CLOption::UseRegex) {
        Err(GrepError::RegexUnsupported)
    } else if has_option(options, CLOption::PrintUsage) {
        Ok(RunPlan::ShowUsage)
    } else {
        Ok(RunPlan::Search)
    }
}

/// A valid option cluster that holds the character `'h'` yields the usage
/// flag.
pub proof fn lemma_cluster_h_gives_usage(s: Seq<char>)
    requires
        cluster_ok(s),
        exists|k: int| 0 <= k < s.len() && s[k] == 'h',
    ensures
        cluster_options(s).contains(CLOption::PrintUsage),
    decreases s.len(),
{
    let k = choose|k: int| 0 <= k < s.len() && s[k] == 'h';
    if s[0] == 'h' {
        assert(cluster_options(s)[0] == CLOption::PrintUsage);
    } else {
        assert(k >= 1);
        let rest = s.drop_first();
        assert(rest[k - 1] == 'h');
        assert forall|j: int| 0 <= j < rest.len() implies valid_option_char(#[trigger] rest[j]) by {
            assert(rest[j] == s[j + 1]);
        }
        lemma_cluster_h_gives_usage(rest);
        let j = choose|j: int| 0 <= j < cluster_options(rest).len() && cluster_options(rest)[j]
            == CLOption::PrintUsage;
        if s[0] == '-' || !valid_option_char(s[0]) {
            assert(cluster_options(s)[j] == CLOption::PrintUsage);
        } else {
            assert(cluster_options(s)[j + 1] == CLOption::PrintUsage);
        }
    }
}

/// Requesting usage works from anywhere: if some token is a valid cluster
/// holding `'h'`, the parsed flags hold the usage flag, whatever else the
/// argument list holds.
pub proof fn lemma_help_flag_included(ts: Seq<Seq<char>>, i: int)
    requires
        0 <= i < ts.len(),
        is_cluster(ts[i]),
        cluster_ok(ts[i]),
        exists|k: int| 0 <= k < ts[i].len() && ts[i][k] == 'h',
    ensures
        all_options(ts).contains(CLOption::PrintUsage),
    decreases ts.len(),
{
    if i == 0 {
        lemma_cluster_h_gives_usage(ts[0]);
        let j = choose|j: int| 0 <= j < cluster_options(ts[0]).len() && cluster_options(ts[0])[j]
            == CLOption::PrintUsage;
        assert(all_options(ts)[j] == CLOption::PrintUsage);
    } else {
        let rest = ts.drop_first();
        assert(rest[i - 1] == ts[i]);
        lemma_help_flag_included(rest, i - 1);
        let j = choose|j: int| 0 <= j < all_options(rest).len() && all_options(rest)[j]
            == CLOption::PrintUsage;
        if is_cluster(ts[0]) {
            assert(all_options(ts)[cluster_options(ts[0]).len() + j] == CLOption::PrintUsage);
        } else {
            assert(all_options(ts)[j] == CLOption::PrintUsage);
        }
    }
}

proof fn lemma_cluster_no_r(s: Seq<char>)
    requires
        forall|k: int| 0 <= k < s.len() ==> #[trigger] s[k] != 'r',
    ensures
        !cluster_options(s).contains(CLOption::UseRegex),
    decreases s.len(),
{
    if s.len() > 0 {
        let rest = s.drop_first();
        assert forall|k: int| 0 <= k < rest.len() implies #[trigger] rest[k] != 'r' by {
            assert(rest[k] == s[k + 1]);
        }
        lemma_cluster_no_r(rest);
        if s[0] == '-' || !valid_option_char(s[0]) {
        } else {
            assert(s[0] != 'r');
            assert(option_of_char(s[0]) != CLOption::UseRegex);
            if cluster_options(s).contains(CLOption::UseRegex) {
                let j = choose|j: int| 0 <= j < cluster_options(s).len() && cluster_options(s)[j]
                    == CLOption::UseRegex;
                assert(j >= 1);
                assert(cluster_options(rest)[j - 1] == CLOption::UseRegex);
                assert(false);
            }
        }
    }
}

/// If no cluster among the tokens holds the character `'r'`, the parsed
/// flags hold no regex request, so the run is not refused on that account.
pub proof fn lemma_no_r_no_regex(ts: Seq<Seq<char>>)
    requires
        forall|i: int, k: int|
            0 <= i < ts.len() && 0 <= k < ts[i].len() ==> #[trigger] ts[i][k] != 'r',
    ensures
        !all_options(ts).contains(CLOption::UseRegex),
    decreases ts.len(),
{
    if ts.len() > 0 {
        let rest = ts.drop_first();
        assert forall|i: int, k: int|
            0 <= i < rest.len() && 0 <= k < rest[i].len() implies #[trigger] rest[i][k] != 'r' by {
            assert(rest[i] == ts[i + 1]);
        }
        lemma_no_r_no_regex(rest);
        if is_cluster(ts[0]) {
            assert forall|k: int| 0 <= k < ts[0].len() implies #[trigger] ts[0][k] != 'r' by {}
            lemma_cluster_no_r(ts[0]);
            if all_options(ts).contains(CLOption::UseRegex) {
                let j = choose|j: int| 0 <= j < all_options(ts).len() && all_options(ts)[j]
                    == CLOption::UseRegex;
                if j < cluster_options(ts[0]).len() {
                    assert(cluster_options(ts[0])[j] == CLOption::UseRegex);
                } else {
                    assert(all_options(rest)[j - cluster_options(ts[0]).len()]
                        == CLOption::UseRegex);
                }
                assert(false);
            }
        }
    }
}

} // verus!
