use cosmic_store::catalog::{Icon, Package};
use cosmic_store::digits::{comes_plainly_before, has_fitting_digits, runs_fit_in};
use cosmic_store::order::name_precedes;
use cosmic_store::registry::{merge_installed, Listing};
use cosmic_store::search::Matcher;

fn named(name: &str) -> Package {
    Package {
        id: name.to_string(),
        name: name.to_string(),
        version: String::new(),
        summary: String::new(),
        icon: Icon::Placeholder,
    }
}

#[test]
fn digit_runs_that_fit() {
    assert!(has_fitting_digits(""));
    assert!(has_fitting_digits("File 10"));
    assert!(has_fitting_digits("1234567890123456789"));
    assert!(has_fitting_digits("1234567890123456789 1234567890123456789"));
    assert!(has_fitting_digits("Zürich 2"));
    assert!(has_fitting_digits("é1234567890123456789"));
    assert!(has_fitting_digits("éé"));
    assert!(has_fitting_digits("Αθήνα"));
    assert!(has_fitting_digits("㉑㉑"));
    assert!(has_fitting_digits("1234567890½234567890"));
}

#[test]
fn digit_runs_that_do_not_fit() {
    assert!(!has_fitting_digits("12345678901234567890"));
    assert!(!has_fitting_digits("v00000000000000000000001"));
    assert!(!has_fitting_digits("㉑㉑㉑㉑㉑㉑㉑㉑㉑㉑"));
    assert!(!has_fitting_digits("1234567890123456789²"));
}

#[test]
fn runs_are_counted_on_bytes() {
    assert!(runs_fit_in(b"1234567890123456789"));
    assert!(runs_fit_in(b"1234567890123456789a1"));
    assert!(!runs_fit_in(b"a12345678901234567890"));
    assert!(runs_fit_in(b""));
}

#[test]
fn plain_order_of_texts() {
    assert!(comes_plainly_before("", "a"));
    assert!(!comes_plainly_before("a", ""));
    assert!(!comes_plainly_before("", ""));
    assert!(comes_plainly_before("ab", "abc"));
    assert!(comes_plainly_before("abc", "abd"));
    assert!(!comes_plainly_before("abd", "abc"));
    assert!(!comes_plainly_before("same", "same"));
    assert!(comes_plainly_before("z", "é"));
}

#[test]
fn names_outside_ascii_are_in_natural_order() {
    assert!(name_precedes("éé2", "éé10"));
    assert!(!name_precedes("éé10", "éé2"));
    assert!(name_precedes("Αθήνα", "Βόλος"));
    assert!(!name_precedes("Βόλος", "Αθήνα"));
    assert!(name_precedes("Ärger", "zebra"));
    assert!(name_precedes("Борис 2", "Борис 10"));
}

#[test]
fn one_long_digit_run_still_goes_to_the_comparison() {
    let long = "12345678901234567890123";
    assert!(name_precedes("5", long));
    assert!(!name_precedes(long, "5"));
    assert!(name_precedes(long, "zebra 5"));
    assert!(!name_precedes("zebra 5", long));
}

#[test]
fn two_long_digit_runs_are_ordered_without_the_comparison() {
    let low = "12345678901234567890123";
    let high = "12345678901234567890124";
    assert!(name_precedes(low, high));
    assert!(!name_precedes(high, low));
    assert!(!name_precedes(low, low));
}

#[test]
fn installed_list_with_long_digit_runs() {
    let listings = vec![Listing {
        backend_name: "apt".to_string(),
        outcome: Ok(vec![
            named("99999999999999999999999999"),
            named("Item 10"),
            named("11111111111111111111111111"),
            named("Item 2"),
        ]),
    }];
    let installed = merge_installed(&listings);
    let names: Vec<&str> = installed.iter().map(|i| i.package.name.as_str()).collect();
    assert_eq!(
        names,
        vec!["11111111111111111111111111", "99999999999999999999999999", "Item 2", "Item 10"]
    );
}

#[test]
fn every_meta_character_is_escaped() {
    let m = match Matcher::new("\\.+*?()|[]{}^$#&-~") {
        Ok(m) => m,
        Err(e) => panic!("query did not compile: {}", e.message),
    };
    assert_eq!(m.source(), "\\\\\\.\\+\\*\\?\\(\\)\\|\\[\\]\\{\\}\\^\\$\\#\\&\\-\\~");
    let plain = match Matcher::new("a b%c/d") {
        Ok(m) => m,
        Err(e) => panic!("query did not compile: {}", e.message),
    };
    assert_eq!(plain.source(), "a b%c/d");
}
