use waw::key::{decimal_string, key, signed_decimal_string, to_key};
use waw::realm::{AuctionRow, Item, ItemIden};
use waw::sanitize::sanitise_name;

#[test]
fn sanitise_lowercases_and_replaces_punctuation_and_spaces() {
    assert_eq!(sanitise_name("True Iron Ore"), "true_iron_ore");
    assert_eq!(sanitise_name("Tidespray Linen (Bolt)"), "tidespray_linen__bolt_");
    assert_eq!(sanitise_name("Dragon's Breath!"), "dragon_s_breath_");
    assert_eq!(sanitise_name("ÉLAN Ünïcode"), "Élan_Ünïcode");
}

#[test]
fn sanitise_is_total_on_empty_and_punctuation_only() {
    assert_eq!(sanitise_name(""), "");
    assert_eq!(sanitise_name("!?.,;"), "_____");
    assert_eq!(sanitise_name("   "), "___");
}

#[test]
fn sanitise_is_idempotent() {
    for s in ["", "True Iron Ore", "!?.,;", "A-b C'd", "MiXeD 123 (x)", "ÄÖ ü"] {
        let once = sanitise_name(s);
        assert_eq!(sanitise_name(&once), once);
    }
}

#[test]
fn keys_are_prefix_colon_id() {
    assert_eq!(key("item", 109119), "item:109119");
    assert_eq!(key("item", 0), "item:0");
    assert_eq!(key("item", u64::MAX), "item:18446744073709551615");
    assert_eq!(to_key(&Item { id: 42, en_us: "x".to_string() }), "item:42");
    assert_eq!(to_key(&ItemIden::new(42, Some(3))), "item:42");
    let row = AuctionRow { item_id: 42, auction_id: 9, quantity: 1, unit_price: 5 };
    assert_eq!(to_key(&row), "item:42");
}

#[test]
fn keys_differ_when_prefix_or_id_differ() {
    assert_ne!(key("item", 1), key("item", 10));
    assert_ne!(key("item", 12), key("items", 2));
    assert_ne!(key("a:1", 2), key("a", 12));
    assert_ne!(key("auction", 7), key("item", 7));
}

#[test]
fn decimal_strings() {
    assert_eq!(decimal_string(0), "0");
    assert_eq!(decimal_string(1234567890), "1234567890");
    assert_eq!(signed_decimal_string(-42), "-42");
    assert_eq!(signed_decimal_string(i64::MIN), "-9223372036854775808");
    assert_eq!(signed_decimal_string(i64::MAX), "9223372036854775807");
}
