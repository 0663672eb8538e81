use grepc::args::parse_args;
use grepc::args::plan_run;
use grepc::args::has_option;
use grepc::args::CLOption;
use grepc::args::RunPlan;
use grepc::errors::GrepError;

#[test]
fn valid_cluster_yields_flags_in_order() {
    let r = CLOption::parse_options("-ln").unwrap();
    assert_eq!(r, vec![CLOption::ShowLineNumbers, CLOption::NoHighlight]);
}

#[test]
fn duplicate_flags_are_kept() {
    let r = CLOption::parse_options("-ll").unwrap();
    assert_eq!(r, vec![CLOption::ShowLineNumbers, CLOption::ShowLineNumbers]);
}

#[test]
fn every_known_flag_parses() {
    let r = CLOption::parse_options("-lhnr").unwrap();
    assert_eq!(
        r,
        vec![
            CLOption::ShowLineNumbers,
            CLOption::PrintUsage,
            CLOption::NoHighlight,
            CLOption::UseRegex,
        ]
    );
}

#[test]
fn dashes_inside_a_cluster_are_ignored() {
    let r = CLOption::parse_options("--l-h").unwrap();
    assert_eq!(r, vec![CLOption::ShowLineNumbers, CLOption::PrintUsage]);
}

#[test]
fn lone_dash_yields_no_flags() {
    let r = CLOption::parse_options("-").unwrap();
    assert_eq!(r, vec![]);
}

#[test]
fn invalid_cluster_names_the_whole_token() {
    match CLOption::parse_options("-lx") {
        Err(GrepError::InvalidOption(t)) => assert_eq!(t, "-lx"),
        _ => panic!("expected an invalid-option error"),
    }
}

#[test]
fn invalid_cluster_applies_no_partial_flags() {
    assert!(matches!(
        CLOption::parse_options("-lz"),
        Err(GrepError::InvalidOption(_))
    ));
}

#[test]
fn two_positionals_and_no_flags_parse() {
    let args = vec!["grepc".to_string(), "apple".to_string(), "f.txt".to_string()];
    let (pos, opts) = parse_args(args).unwrap();
    assert_eq!(pos, vec!["apple".to_string(), "f.txt".to_string()]);
    assert_eq!(opts, vec![]);
}

#[test]
fn flags_and_positionals_mix_in_any_order() {
    let args = vec![
        "grepc".to_string(),
        "-l".to_string(),
        "apple".to_string(),
        "-n".to_string(),
        "f.txt".to_string(),
    ];
    let (pos, opts) = parse_args(args).unwrap();
    assert_eq!(pos, vec!["apple".to_string(), "f.txt".to_string()]);
    assert_eq!(opts, vec![CLOption::ShowLineNumbers, CLOption::NoHighlight]);
}

#[test]
fn one_positional_is_invalid_usage() {
    let args = vec!["grepc".to_string(), "apple".to_string()];
    assert!(matches!(parse_args(args), Err(GrepError::InvalidUsage)));
}

#[test]
fn three_positionals_are_invalid_usage() {
    let args = vec![
        "grepc".to_string(),
        "a".to_string(),
        "b".to_string(),
        "c".to_string(),
    ];
    assert!(matches!(parse_args(args), Err(GrepError::InvalidUsage)));
}

#[test]
fn empty_token_counts_as_positional() {
    let args = vec![
        "grepc".to_string(),
        "a".to_string(),
        "b".to_string(),
        "".to_string(),
    ];
    assert!(matches!(parse_args(args), Err(GrepError::InvalidUsage)));
}

#[test]
fn an_empty_argument_list_is_invalid_usage() {
    assert!(matches!(parse_args(vec![]), Err(GrepError::InvalidUsage)));
}

#[test]
fn help_bypasses_the_positional_count() {
    let args = vec!["grepc".to_string(), "-h".to_string()];
    let (pos, opts) = parse_args(args).unwrap();
    assert_eq!(pos, vec![] as Vec<String>);
    assert_eq!(opts, vec![CLOption::PrintUsage]);
}

#[test]
fn help_works_with_one_positional() {
    let args = vec!["grepc".to_string(), "pattern".to_string(), "-h".to_string()];
    let (pos, opts) = parse_args(args).unwrap();
    assert_eq!(pos, vec!["pattern".to_string()]);
    assert!(has_option(&opts, CLOption::PrintUsage));
}

#[test]
fn first_invalid_cluster_is_reported() {
    let args = vec!["grepc".to_string(), "-x".to_string(), "-y".to_string()];
    match parse_args(args) {
        Err(GrepError::InvalidOption(t)) => assert_eq!(t, "-x"),
        _ => panic!("expected an invalid-option error"),
    }
}

#[test]
fn invalid_option_outranks_invalid_usage() {
    let args = vec!["grepc".to_string(), "-q".to_string()];
    assert!(matches!(parse_args(args), Err(GrepError::InvalidOption(_))));
}

#[test]
fn regex_request_fails_before_anything_else() {
    let opts = vec![CLOption::UseRegex];
    assert!(matches!(plan_run(&opts), Err(GrepError::RegexUnsupported)));
}

#[test]
fn regex_request_outranks_the_help_flag() {
    let opts = vec![CLOption::UseRegex, CLOption::PrintUsage];
    assert!(matches!(plan_run(&opts), Err(GrepError::RegexUnsupported)));
}

#[test]
fn help_flag_plans_a_usage_run() {
    let opts = vec![CLOption::ShowLineNumbers, CLOption::PrintUsage];
    assert_eq!(plan_run(&opts).unwrap(), RunPlan::ShowUsage);
}

#[test]
fn no_special_flags_plan_a_search() {
    let opts = vec![CLOption::ShowLineNumbers, CLOption::NoHighlight];
    assert_eq!(plan_run(&opts).unwrap(), RunPlan::Search);
}

#[test]
fn has_option_finds_only_present_flags() {
    let opts = vec![CLOption::ShowLineNumbers];
    assert!(has_option(&opts, CLOption::ShowLineNumbers));
    assert!(!has_option(&opts, CLOption::NoHighlight));
    assert!(!has_option(&vec![], CLOption::PrintUsage));
}
