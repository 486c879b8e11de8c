use descramble::gui::controls_state::{
    validate_integer_u32, validate_integer_usize, validate_seed, ValidatedBinding,
};

#[test]
fn new_binding_shows_its_initial_value() {
    let binding = ValidatedBinding::new(256u32, validate_integer_u32);
    assert_eq!(binding.get_raw(), "256");
    assert_eq!(*binding.get_validated(), 256);
    assert!(binding.is_valid());
}

#[test]
fn rejected_text_is_shown_but_keeps_the_last_valid_value() {
    let mut binding = ValidatedBinding::new(100usize, validate_integer_usize);
    assert_eq!(binding.update("12"), Ok(12));
    assert_eq!(*binding.get_validated(), 12);
    assert_eq!(
        binding.update("12x"),
        Err("Preview size must be a positive integer".to_string())
    );
    assert_eq!(binding.get_raw(), "12x");
    assert_eq!(*binding.get_validated(), 12);
    assert!(!binding.is_valid());
    assert_eq!(
        binding.update("0"),
        Err("Preview size must be greater than zero".to_string())
    );
    assert!(!binding.is_valid());
}

#[test]
fn only_valid_text_can_be_kept_in_the_field() {
    let mut binding =
        ValidatedBinding::new(42u64, validate_seed).only_update_raw_on_valid(true);
    assert_eq!(binding.update("seven"), Err("Seed must be an unsigned integer".into()));
    assert_eq!(binding.get_raw(), "42");
    assert!(!binding.is_valid());
    assert_eq!(binding.update("0"), Ok(0));
    assert_eq!(binding.get_raw(), "0");
    assert!(binding.is_valid());
}

#[test]
fn setting_a_value_makes_the_field_valid() {
    let mut binding = ValidatedBinding::new(5u32, validate_integer_u32);
    assert!(binding.update("").is_err());
    let binding = binding.set(77).ok().unwrap();
    assert_eq!(binding.get_raw(), "77");
    assert_eq!(*binding.get_validated(), 77);
    assert!(binding.is_valid());
}

#[test]
fn integer_text_follows_the_standard_parser() {
    assert_eq!(validate_integer_u32("+8"), Ok(8));
    assert!(validate_integer_u32(" 8").is_err());
    assert!(validate_integer_u32("-8").is_err());
    assert!(validate_integer_u32("4294967296").is_err());
    assert_eq!(validate_integer_u32("4294967295"), Ok(u32::MAX));
    assert_eq!(validate_seed("18446744073709551615"), Ok(u64::MAX));
    assert!(validate_seed("18446744073709551616").is_err());
    assert_eq!(validate_integer_usize("007"), Ok(7));
}

#[test]
fn a_field_holds_the_last_accepted_value_through_any_updates() {
    let mut binding = ValidatedBinding::new(10usize, validate_integer_usize);
    let _ = binding.update("x");
    assert!(!binding.is_valid());
    assert_eq!(*binding.get_validated(), 10);
    let _ = binding.update("5");
    assert!(binding.is_valid());
    assert_eq!(*binding.get_validated(), 5);
    let _ = binding.update("0");
    let _ = binding.update("y");
    assert!(!binding.is_valid());
    assert_eq!(*binding.get_validated(), 5);
    let binding = binding.set(7).unwrap();
    assert!(binding.is_valid());
    assert_eq!(*binding.get_validated(), 7);
}
