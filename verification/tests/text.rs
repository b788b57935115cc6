use zz::text::{chars_of, lowered_chars, same_chars, to_lower};

#[test]
fn capitals_are_lowered_and_nothing_else() {
    assert_eq!(to_lower('A'), 'a');
    assert_eq!(to_lower('Z'), 'z');
    assert_eq!(to_lower('m'), 'm');
    assert_eq!(to_lower('@'), '@');
    assert_eq!(to_lower('['), '[');
    assert_eq!(to_lower('7'), '7');
    assert_eq!(to_lower('É'), 'É');
}

#[test]
fn lowered_chars_keeps_the_length() {
    assert_eq!(lowered_chars("TaR.Gz"), vec!['t', 'a', 'r', '.', 'g', 'z']);
    assert_eq!(lowered_chars(""), Vec::<char>::new());
    assert_eq!(lowered_chars("ÀB"), vec!['À', 'b']);
}

#[test]
fn chars_of_counts_characters_not_bytes() {
    assert_eq!(chars_of("été"), vec!['é', 't', 'é']);
    assert_eq!(chars_of(""), Vec::<char>::new());
}

#[test]
fn same_chars_compares_all_of_both() {
    assert!(same_chars(&vec!['g', 'z'], "gz"));
    assert!(!same_chars(&vec!['g', 'z'], "g"));
    assert!(!same_chars(&vec!['g'], "gz"));
    assert!(!same_chars(&vec!['g', 'z'], "gx"));
    assert!(same_chars(&Vec::new(), ""));
}
