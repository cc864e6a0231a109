use waw::index::{display_key, ids_key, ids_pattern, load_commands, parse_id, record_key, MetadataIndex};
use waw::realm::Item;
use waw::sanitize::sanitise_name;

fn item(id: u64, name: &str) -> Item {
    Item { id, en_us: name.to_string() }
}

/// "True Iron Ore" and 48 other names that sanitise to a `true_` prefix,
/// among a few that do not.
fn loaded() -> MetadataIndex {
    let mut idx = MetadataIndex::new();
    idx.load(item(2770, "Copper Ore"));
    idx.load(item(109119, "True Iron Ore"));
    for i in 0..48u64 {
        idx.load(item(200000 + i, &format!("True Sample {}", i)));
    }
    idx.load(item(2771, "Tin Ore"));
    idx.load(item(2772, "Untrue Iron"));
    idx
}

#[test]
fn get_items() {
    let idx = loaded();
    assert!(idx.search("").len() > 0);
    assert!(idx.by_id(109119).is_some());

    let item_ids: Vec<u64> = idx.search("True Iron Ore").into_iter().map(|i| i.id).collect();
    assert_eq!(item_ids.len(), 1);

    let x = idx.by_name("True Iron Ore");
    assert!(x.is_some());
    assert_eq!(
        x.unwrap(),
        Item {
            id: 109119,
            en_us: "True Iron Ore".to_string()
        }
    );

    let item_ids_res = idx.search("true");
    assert_eq!(item_ids_res.len(), 49);
}

#[test]
fn test_search_items() {
    let idx = loaded();
    let items = idx.search("True Iron Ore");
    assert_eq!(1, items.len());
    for item in items {
        assert!(item.en_us == "True Iron Ore");
    }
}

#[test]
fn search_true_gives_49_distinct_ids_with_true_iron_ore() {
    let idx = loaded();
    let mut ids: Vec<u64> = idx.search("true").into_iter().map(|i| i.id).collect();
    assert_eq!(ids.len(), 49);
    assert!(ids.contains(&109119));
    ids.sort();
    ids.dedup();
    assert_eq!(ids.len(), 49);
}

#[test]
fn by_name_true_iron_ore_is_exact() {
    let idx = loaded();
    assert_eq!(idx.by_name("True Iron Ore"), Some(item(109119, "True Iron Ore")));
    assert_eq!(idx.by_name("true iron ore"), Some(item(109119, "True Iron Ore")));
    assert_eq!(idx.by_name("True-Iron-Ore!"), None);
    assert_eq!(idx.by_name("True Iron"), None);
}

#[test]
fn by_id_misses_are_none() {
    let idx = loaded();
    assert_eq!(idx.by_id(1), None);
    assert_eq!(idx.by_id(2770), Some(item(2770, "Copper Ore")));
    assert!(MetadataIndex::new().search("").is_empty());
}

#[test]
fn name_collisions_take_lowest_id() {
    let mut idx = MetadataIndex::new();
    idx.load(item(30, "Iron Ore"));
    idx.load(item(10, "iron ore"));
    idx.load(item(20, "Iron, Ore"));
    idx.load(item(10, "iron ore"));
    assert_eq!(idx.by_name("IRON ORE"), Some(item(10, "iron ore")));
    let ids: Vec<u64> = idx.search("iron").into_iter().map(|i| i.id).collect();
    assert_eq!(ids, vec![10, 30, 20]);
}

#[test]
fn search_keeps_entry_order_then_id_order() {
    let mut idx = MetadataIndex::new();
    idx.load(item(5, "Ore B"));
    idx.load(item(9, "Ore A"));
    idx.load(item(3, "Ore B"));
    idx.load(item(1, "Iron"));
    let ids: Vec<u64> = idx.search("ore").into_iter().map(|i| i.id).collect();
    assert_eq!(ids, vec![3, 5, 9]);
}

#[test]
fn reload_replaces_the_record() {
    let mut idx = MetadataIndex::new();
    idx.load(item(7, "Old Name"));
    idx.load(item(7, "New Name"));
    assert_eq!(idx.by_id(7), Some(item(7, "New Name")));
    assert_eq!(idx.by_name("New Name"), Some(item(7, "New Name")));
}

#[test]
fn store_keys_for_metadata() {
    assert_eq!(record_key(109119), "ref:item:109119");
    assert_eq!(display_key(109119), "names:item:109119");
    assert_eq!(ids_key("True Iron Ore"), "ids:item:true_iron_ore");
    assert_eq!(ids_pattern("True"), "ids:item:true*");
    assert_eq!(sanitise_name("True Iron Ore"), "true_iron_ore");
}

#[test]
fn load_commands_for_one_row() {
    let cmds = load_commands(&item(109119, "True Iron Ore"));
    assert_eq!(cmds.len(), 3);
    assert_eq!(cmds[0], vec!["HSET", "ref:item:109119", "id", "109119", "en_us", "True Iron Ore"]);
    assert_eq!(cmds[1], vec!["ZADD", "ids:item:true_iron_ore", "109119", "109119"]);
    assert_eq!(cmds[2], vec!["SET", "names:item:109119", "True Iron Ore"]);
}

#[test]
fn parse_id_reads_decimal_ids() {
    assert_eq!(parse_id("109119"), Some(109119));
    assert_eq!(parse_id("0"), Some(0));
    assert_eq!(parse_id("18446744073709551615"), Some(u64::MAX));
    assert_eq!(parse_id("18446744073709551616"), None);
    assert_eq!(parse_id(""), None);
    assert_eq!(parse_id("12a"), None);
    assert_eq!(parse_id("-1"), None);
}
