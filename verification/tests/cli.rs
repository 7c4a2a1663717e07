use modexp::{run, ModexpError};

fn list(items: &[&str]) -> Vec<String> {
    items.iter().map(|s| s.to_string()).collect()
}

#[test]
fn three_operands_are_evaluated() {
    assert_eq!(Ok(4), run(&list(&["modexp", "10", "9", "6"])));
    assert_eq!(Ok(34), run(&list(&["modexp", "450", "768", "517"])));
    assert_eq!(Ok(0), run(&list(&["modexp", "5", "0", "1"])));
    assert_eq!(
        Ok(1),
        run(&list(&["modexp", "18446744073709551555", "18446744073709551556", "18446744073709551557"]))
    );
}

#[test]
fn the_first_entry_is_not_read() {
    assert_eq!(Ok(4), run(&list(&["", "10", "9", "6"])));
    assert_eq!(Ok(4), run(&list(&["not a number", "10", "9", "6"])));
}

#[test]
fn a_wrong_count_is_a_parse_failure() {
    assert_eq!(Err(ModexpError::Parse), run(&list(&[])));
    assert_eq!(Err(ModexpError::Parse), run(&list(&["modexp"])));
    assert_eq!(Err(ModexpError::Parse), run(&list(&["modexp", "10", "9"])));
    assert_eq!(Err(ModexpError::Parse), run(&list(&["modexp", "10", "9", "6", "1"])));
    assert_eq!(Err(ModexpError::Parse), run(&list(&["10", "9", "6"])));
}

#[test]
fn a_bad_operand_is_a_parse_failure() {
    assert_eq!(Err(ModexpError::Parse), run(&list(&["modexp", "x", "9", "6"])));
    assert_eq!(Err(ModexpError::Parse), run(&list(&["modexp", "10", "-9", "6"])));
    assert_eq!(Err(ModexpError::Parse), run(&list(&["modexp", "10", "9", "18446744073709551616"])));
    assert_eq!(Err(ModexpError::Parse), run(&list(&["modexp", "10", "9", ""])));
    // A bad operand is reported even where the modulus is zero.
    assert_eq!(Err(ModexpError::Parse), run(&list(&["modexp", "ten", "9", "0"])));
}

#[test]
fn a_zero_modulus_is_its_own_failure() {
    assert_eq!(Err(ModexpError::InvalidModulus), run(&list(&["modexp", "10", "9", "0"])));
    assert_eq!(Err(ModexpError::InvalidModulus), run(&list(&["modexp", "0", "0", "+000"])));
}

#[test]
fn every_failure_shows_the_usage_line_and_status_one() {
    assert_eq!("modexp: usage: modexp <x> <y> <m>", ModexpError::Parse.message());
    assert_eq!("modexp: usage: modexp <x> <y> <m>", ModexpError::InvalidModulus.message());
    assert_eq!(1, ModexpError::Parse.exit_code());
    assert_eq!(1, ModexpError::InvalidModulus.exit_code());
}
