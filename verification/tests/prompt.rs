use ogsp_installer::error::PipelineError;
use ogsp_installer::prompt::{blank, declined, pick, trimmed_chars};

#[test]
fn a_number_picks_the_entry_before_it() {
    assert_eq!(pick("1", 3), Ok(0));
    assert_eq!(pick("2", 3), Ok(1));
    assert_eq!(pick("3", 3), Ok(2));
}

#[test]
fn white_space_around_the_number_does_not_count() {
    assert_eq!(pick(" 2 \n", 3), Ok(1));
    assert_eq!(pick("\t3\r\n", 3), Ok(2));
    assert_eq!(pick("\u{3000}2\u{3000}", 3), Ok(1));
    assert_eq!(pick("\u{a0}1\u{2028}", 1), Ok(0));
}

#[test]
fn a_plus_sign_and_leading_zeros_are_read() {
    assert_eq!(pick("+3", 3), Ok(2));
    assert_eq!(pick("007", 7), Ok(6));
    assert_eq!(pick("+007", 9), Ok(6));
}

#[test]
fn zero_and_numbers_beyond_the_list_are_refused() {
    assert_eq!(pick("0", 3), Err(PipelineError::InvalidSelection));
    assert_eq!(pick("4", 3), Err(PipelineError::InvalidSelection));
    assert_eq!(pick("1", 0), Err(PipelineError::InvalidSelection));
    assert_eq!(pick("000", 3), Err(PipelineError::InvalidSelection));
}

#[test]
fn a_number_too_large_for_the_machine_is_refused() {
    assert_eq!(
        pick("99999999999999999999999999999999999999999", usize::MAX),
        Err(PipelineError::InvalidSelection)
    );
    assert_eq!(pick("18446744073709551616", usize::MAX), Err(PipelineError::InvalidSelection));
}

#[test]
fn the_largest_number_is_read() {
    let text = format!("{}", usize::MAX);
    assert_eq!(pick(&text, usize::MAX), Ok(usize::MAX - 1));
}

#[test]
fn what_is_not_a_number_is_refused() {
    for reply in ["", " ", "\n", "abc", "1a", "a1", "-1", "1 2", "+", "++1", "1.0", "１", "1+"] {
        assert_eq!(pick(reply, 5), Err(PipelineError::InvalidSelection), "reply {:?}", reply);
    }
}

#[test]
fn only_white_space_is_blank() {
    assert!(blank(""));
    assert!(blank("\n"));
    assert!(blank(" \t\r\n"));
    assert!(blank("\u{3000}"));
    assert!(!blank("x"));
    assert!(!blank(" 1 "));
    assert!(!blank("\u{200b}"));
}

#[test]
fn trimming_keeps_what_is_between_the_white_space() {
    assert_eq!(trimmed_chars("  a b \n"), vec!['a', ' ', 'b']);
    assert_eq!(trimmed_chars(""), Vec::<char>::new());
    assert_eq!(trimmed_chars(" \n "), Vec::<char>::new());
    assert_eq!(trimmed_chars("x"), vec!['x']);
}

#[test]
fn only_the_letter_n_says_no() {
    assert!(declined("n"));
    assert!(declined(" n\n"));
    assert!(!declined("N"));
    assert!(!declined("no"));
    assert!(!declined("y"));
    assert!(!declined(""));
    assert!(!declined("n n"));
}
