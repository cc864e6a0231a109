use waw::key::key;
use waw::series::{series_reply, summarize, ItemSnapshot, ItemSnapshots, Series, Summary};
use waw::store::{
    append_command, range_command, redis_proto, row_labels, SeriesStore, StorageActor, StoreAuction,
    StoreError, DEFAULT_RETENTION_SECS,
};
use waw::realm::{AuctionRow, Item};

fn obs(ts: i64, value: u64) -> ItemSnapshot {
    ItemSnapshot { ts, value }
}

#[test]
fn summarize_empty_is_no_data() {
    assert_eq!(summarize(&vec![]), None);
}

#[test]
fn summarize_takes_earliest_among_ties() {
    let s = summarize(&vec![obs(1, 10), obs(2, 5), obs(3, 5)]);
    assert_eq!(s, Some(Summary { min: obs(2, 5), max: obs(1, 10) }));
    let s = summarize(&vec![obs(1, 3), obs(2, 9), obs(3, 9), obs(4, 1)]);
    assert_eq!(s, Some(Summary { min: obs(4, 1), max: obs(2, 9) }));
}

#[test]
fn summarize_single_observation() {
    assert_eq!(summarize(&vec![obs(7, 0)]), Some(Summary { min: obs(7, 0), max: obs(7, 0) }));
}

#[test]
fn append_then_range_then_summarize() {
    let mut store = SeriesStore::new();
    let labels = vec![];
    let k = key("item", 42);
    assert_eq!(store.append(&k, 100, 30, &labels, 60), Ok(()));
    assert_eq!(store.append(&k, 200, 20, &labels, 60), Ok(()));
    let points = store.range(&k).unwrap();
    assert_eq!(points, vec![obs(100, 30), obs(200, 20)]);
    let s = summarize(&points).unwrap();
    assert_eq!(s.min.value, 20);
    assert_eq!(s.max.value, 30);
}

#[test]
fn range_is_in_timestamp_order_and_duplicates_are_refused() {
    let mut store = SeriesStore::new();
    let labels = vec![("item".to_string(), "42".to_string())];
    assert_eq!(store.append("item:42", 300, 1, &labels, 10), Ok(()));
    assert_eq!(store.append("item:42", 100, 2, &labels, 10), Ok(()));
    assert_eq!(
        store.append("item:42", 300, 9, &labels, 10),
        Err(StoreError::Write { key: "item:42".to_string() })
    );
    assert_eq!(store.range("item:42"), Ok(vec![obs(100, 2), obs(300, 1)]));
    assert_eq!(store.range("item:7"), Err(StoreError::Read { key: "item:7".to_string() }));
}

#[test]
fn storage_actor_appends_rows_under_item_keys() {
    let actor = StorageActor::default();
    assert_eq!(actor.retention, DEFAULT_RETENTION_SECS);
    let mut store = SeriesStore::new();
    for (ts, price) in [(100i64, 30u64), (200, 20)] {
        let msg = StoreAuction {
            db_host: "localhost".to_string(),
            auction_row: AuctionRow { item_id: 42, auction_id: 1, quantity: 3, unit_price: price },
            timestamp: ts,
        };
        assert_eq!(actor.store(&mut store, &msg), Ok(()));
    }
    assert_eq!(store.range("item:42"), Ok(vec![obs(100, 30), obs(200, 20)]));
}

#[test]
fn append_command_shape() {
    let row = AuctionRow { item_id: 109119, auction_id: 77, quantity: 12, unit_price: 450 };
    let labels = row_labels(&row);
    let cmd = append_command("item:109119", 1600000000, 450, &labels, 9999999999);
    assert_eq!(
        cmd,
        vec![
            "TS.ADD", "item:109119", "1600000000", "450", "RETENTION", "9999999999", "LABELS",
            "auction_id", "77", "item", "109119", "quantity", "12",
        ]
    );
    let msg = StoreAuction { db_host: "h".to_string(), auction_row: row, timestamp: 1600000000 };
    assert_eq!(StorageActor::default().command(&msg), cmd);
    assert_eq!(range_command("item:42"), vec!["TS.RANGE", "item:42", "-", "+"]);
}

#[test]
fn wire_protocol_encoding() {
    let args = vec!["TS.RANGE".to_string(), "item:42".to_string(), "é".to_string()];
    assert_eq!(redis_proto(&args), "*3\r\n$8\r\nTS.RANGE\r\n$7\r\nitem:42\r\n$2\r\né\r\n");
    assert_eq!(redis_proto(&vec![]), "*0\r\n");
}

#[test]
fn snapshots_from_pairs() {
    let s = ItemSnapshots::from_pairs(&vec![(1, 2), (3, 4)]);
    assert_eq!(s.snapshots, vec![obs(1, 2), obs(3, 4)]);
}

#[test]
fn test_symbols_get_item_e2e() {
    let symbols: Vec<u64> = vec![109119, 109076, 111557];
    let mut store = SeriesStore::new();
    for sym in &symbols {
        store.append(&key("item", *sym), 100, 5, &vec![], 60).unwrap();
    }
    assert!(symbols.len() > 0);
    for sym in symbols {
        let prices = store.range(&key("item", sym)).unwrap();
        let series = Series::new(sym, "name".to_string(), prices);
        assert_eq!(series.id, sym);
        assert_eq!(series.min, Some((100, 5)));
    }
}

#[test]
fn series_without_data_has_no_summary() {
    let s = Series::new(1, "x".to_string(), vec![]);
    assert_eq!(s.min, None);
    assert_eq!(s.max, None);
    let s = Series::new(1, "x".to_string(), vec![obs(1, 10), obs(2, 5), obs(3, 5)]);
    assert_eq!(s.min, Some((2, 5)));
    assert_eq!(s.max, Some((1, 10)));
}

#[test]
fn series_reply_builds_series_or_passes_the_read_error() {
    let item = Item { id: 42, en_us: "Thing".to_string() };
    let s = series_reply(item.clone(), Ok(vec![obs(100, 30), obs(200, 20)])).unwrap();
    assert_eq!(s.id, 42);
    assert_eq!(s.name, "Thing");
    assert_eq!(s.min, Some((200, 20)));
    assert_eq!(s.max, Some((100, 30)));
    let e = StoreError::Read { key: "item:42".to_string() };
    assert_eq!(series_reply(item, Err(e.clone())), Err(e));
}
