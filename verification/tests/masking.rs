use db_copier::mask::{apply_mask_rule, apply_pattern, hex_string, mask_row};
use db_copier::model::{ColumnConfig, MaskRule, MaskRuleType};

fn rule(rule_type: MaskRuleType, pattern: Option<&str>) -> MaskRule {
    MaskRule { rule_type, pattern: pattern.map(|p| p.to_string()) }
}

#[test]
fn hash_of_empty_value_is_the_known_digest() {
    let out = apply_mask_rule("", &rule(MaskRuleType::Hash, None));
    assert_eq!(out, "e3b0c44298fc1c149afbf4c8996fb92427ae41e4649b934ca495991b7852b855");
}

#[test]
fn hash_of_abc_is_the_known_digest() {
    let out = apply_mask_rule("abc", &rule(MaskRuleType::Hash, None));
    assert_eq!(out, "ba7816bf8f01cfea414140de5dae2223b00361a396177a9cb410ff61f20015ad");
}

#[test]
fn hash_is_64_hex_digits_and_repeatable() {
    for value in ["", "a", "hello world", "名字", "x".repeat(1000).as_str()] {
        let first = apply_mask_rule(value, &rule(MaskRuleType::Hash, None));
        let second = apply_mask_rule(value, &rule(MaskRuleType::Hash, Some("ignored")));
        assert_eq!(first.len(), 64);
        assert!(first.chars().all(|c| c.is_ascii_digit() || ('a'..='f').contains(&c)));
        assert_eq!(first, second);
    }
}

#[test]
fn hash_differs_from_its_input() {
    let out = apply_mask_rule("secret", &rule(MaskRuleType::Hash, None));
    assert_ne!(out, "secret");
}

#[test]
fn hex_string_writes_high_digit_first() {
    assert_eq!(hex_string(&vec![0x00, 0x0f, 0xa5, 0xff]), "000fa5ff");
    assert_eq!(hex_string(&vec![]), "");
}

#[test]
fn fixed_gives_the_replacement() {
    assert_eq!(apply_mask_rule("anything", &rule(MaskRuleType::Fixed, Some("REDACTED"))), "REDACTED");
}

#[test]
fn fixed_without_replacement_gives_four_asterisks() {
    assert_eq!(apply_mask_rule("anything", &rule(MaskRuleType::Fixed, None)), "****");
}

#[test]
fn pattern_keeps_and_stars() {
    assert_eq!(apply_mask_rule("AB12345", &rule(MaskRuleType::Pattern, Some("##-****"))), "AB-****");
}

#[test]
fn pattern_on_short_value_does_not_pad() {
    assert_eq!(apply_mask_rule("A", &rule(MaskRuleType::Pattern, Some("##-****"))), "A-");
}

#[test]
fn pattern_stops_with_the_template() {
    assert_eq!(apply_pattern("ABCDEFG", "#*"), "A*");
    assert_eq!(apply_pattern("ABCDEFG", ""), "");
}

#[test]
fn pattern_literals_take_nothing_from_the_value() {
    assert_eq!(apply_pattern("12", "(#)-(#)-(#)"), "(1)-(2)-()");
}

#[test]
fn pattern_counts_characters_not_bytes() {
    assert_eq!(apply_pattern("é北c", "#*#"), "é*c");
}

#[test]
fn pattern_without_template_leaves_the_value() {
    assert_eq!(apply_mask_rule("value", &rule(MaskRuleType::Pattern, None)), "value");
}

#[test]
fn default_rule_is_hash_without_pattern() {
    let r = MaskRule::default();
    assert_eq!(r.rule_type, MaskRuleType::Hash);
    assert_eq!(r.pattern, None);
    assert_eq!(MaskRuleType::default(), MaskRuleType::Hash);
}

#[test]
fn mask_row_applies_each_columns_rule() {
    let columns = vec![
        ColumnConfig { name: "id".to_string(), mask_rule: None, ignore: false },
        ColumnConfig {
            name: "email".to_string(),
            mask_rule: Some(rule(MaskRuleType::Fixed, Some("x@y"))),
            ignore: false,
        },
        ColumnConfig {
            name: "phone".to_string(),
            mask_rule: Some(rule(MaskRuleType::Pattern, Some("###-****"))),
            ignore: false,
        },
    ];
    let row = vec!["7".to_string(), "a@b.c".to_string(), "5551234".to_string(), "extra".to_string()];
    assert_eq!(mask_row(&columns, &row), vec!["7", "x@y", "555-****", "extra"]);
}
