use serde_gff::Label;

#[test]
fn label_constructs_from_str() {
    assert_eq!(Label::from(*b"short\0\0\0\0\0\0\0\0\0\0\0"), "short".parse().unwrap());
    assert_eq!(Label::from(*b"exact_16_chars_\0"), "exact_16_chars_".parse().unwrap());
    assert!("more_then_16_char".parse::<Label>().is_err());
}
