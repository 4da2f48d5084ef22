use cat_llm::args::{parse_command_line, CatLlmArgs, CliError};
use cat_llm::text::{has_prefix, parse_usize, same_text};

fn argv(items: &[&str]) -> Vec<String> {
    items.iter().map(|s| s.to_string()).collect()
}

#[test]
fn missing_limit_value_is_refused() {
    let r = parse_command_line(argv(&["prog", "cat-llm", "-l"]));
    assert_eq!(r.err(), Some(CliError::MissingLimitValue));
    assert!(CliError::MissingLimitValue.message().contains("No argument passed"));
}

#[test]
fn unknown_subcommand_is_refused() {
    let r = parse_command_line(argv(&["prog", "nosuchsubcommand"]));
    assert_eq!(r.err(), Some(CliError::UnsupportedCommand));
    assert_eq!(CliError::UnsupportedCommand.message(), "unsupported command");
}

#[test]
fn missing_subcommand_is_refused() {
    assert_eq!(parse_command_line(argv(&["prog"])).err(), Some(CliError::NoCommand));
    assert_eq!(parse_command_line(argv(&[])).err(), Some(CliError::NoCommand));
    assert_eq!(CliError::NoCommand.message(), "No command found");
}

#[test]
fn both_subcommand_names_are_accepted() {
    for name in ["cat-llm", "llm-cat"] {
        let a = parse_command_line(argv(&["prog", name, "f.txt"])).ok().unwrap();
        assert_eq!(a.filenames, argv(&["f.txt"]));
    }
}

#[test]
fn space_separated_limit_is_read() {
    let a = CatLlmArgs::from(argv(&["prog", "cat-llm", "-l", "2", "a.txt"])).ok().unwrap();
    assert_eq!(a.limit, Some(2));
    assert!(!a.clipboard);
    assert_eq!(a.filenames, argv(&["a.txt"]));
    let b = CatLlmArgs::from(argv(&["prog", "cat-llm", "--limit", "7"])).ok().unwrap();
    assert_eq!(b.limit, Some(7));
    assert!(b.filenames.is_empty());
}

#[test]
fn joined_limit_is_read() {
    let a = CatLlmArgs::from(argv(&["prog", "cat-llm", "-l=3"])).ok().unwrap();
    assert_eq!(a.limit, Some(3));
    let b = CatLlmArgs::from(argv(&["prog", "cat-llm", "--limit=12", "x"])).ok().unwrap();
    assert_eq!(b.limit, Some(12));
    assert_eq!(b.filenames, argv(&["x"]));
}

#[test]
fn last_limit_wins() {
    let a = CatLlmArgs::from(argv(&["prog", "cat-llm", "-l", "2", "--limit=5", "-l=9"])).ok().unwrap();
    assert_eq!(a.limit, Some(9));
}

#[test]
fn clipboard_flags_are_read() {
    let a = CatLlmArgs::from(argv(&["prog", "cat-llm", "-cb", "a"])).ok().unwrap();
    assert!(a.clipboard);
    let b = CatLlmArgs::from(argv(&["prog", "cat-llm", "--clipboard", "missing.txt"])).ok().unwrap();
    assert!(b.clipboard);
    assert_eq!(b.limit, None);
    assert_eq!(b.filenames, argv(&["missing.txt"]));
}

#[test]
fn invalid_limit_values_are_refused() {
    let r = CatLlmArgs::from(argv(&["prog", "cat-llm", "-l", "two"]));
    assert_eq!(r.err(), Some(CliError::InvalidLimitValue));
    let r = CatLlmArgs::from(argv(&["prog", "cat-llm", "--limit=-1"]));
    assert_eq!(r.err(), Some(CliError::InvalidLimitValue));
    let r = CatLlmArgs::from(argv(&["prog", "cat-llm", "-l="]));
    assert_eq!(r.err(), Some(CliError::InvalidShortLimitValue));
    assert_eq!(
        CliError::InvalidShortLimitValue.message(),
        "Invalid value passed to `-l`. It must be an unsigned integer."
    );
    assert_eq!(
        CliError::InvalidLimitValue.message(),
        "Invalid value passed to `--limit`. It must be an unsigned integer."
    );
}

#[test]
fn limit_takes_the_next_token_whatever_it_is() {
    let r = CatLlmArgs::from(argv(&["prog", "cat-llm", "-l", "-cb"]));
    assert_eq!(r.err(), Some(CliError::InvalidLimitValue));
}

#[test]
fn no_options_gives_defaults() {
    let a = CatLlmArgs::from(argv(&["prog", "cat-llm"])).ok().unwrap();
    assert!(!a.clipboard);
    assert_eq!(a.limit, None);
    assert!(a.filenames.is_empty());
    let d = CatLlmArgs::default();
    assert!(!d.clipboard && d.limit.is_none() && d.filenames.is_empty());
}

#[test]
fn decimal_numbers_parse_as_std_does() {
    assert_eq!(parse_usize("0"), Some(0));
    assert_eq!(parse_usize("0042"), Some(42));
    assert_eq!(parse_usize("+5"), Some(5));
    assert_eq!(parse_usize("+"), None);
    assert_eq!(parse_usize(""), None);
    assert_eq!(parse_usize("-5"), None);
    assert_eq!(parse_usize(" 5"), None);
    assert_eq!(parse_usize("1a"), None);
    let max = usize::MAX.to_string();
    assert_eq!(parse_usize(&max), Some(usize::MAX));
    let over = format!("{}0", max);
    assert_eq!(parse_usize(&over), None);
    for s in ["17", "+3", "x", "99999999999999999999999", "-0"] {
        assert_eq!(parse_usize(s), s.parse::<usize>().ok());
    }
}

#[test]
fn prefix_and_equality() {
    assert!(has_prefix("--limit=4", "--limit="));
    assert!(!has_prefix("-l", "-l="));
    assert!(has_prefix("abc", ""));
    assert!(same_text("é-x", "é-x"));
    assert!(!same_text("ab", "abc"));
}
