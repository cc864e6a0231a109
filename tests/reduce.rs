use waw::realm::{Auction, AuctionResponse, AuctionRow, AuctionTime, ConnectedRealmLink, ItemIden};

fn listing(id: u64, item: u64, buyout: Option<u64>, unit_price: Option<u64>, quantity: u16) -> Auction {
    Auction {
        id,
        item: ItemIden::new(item, None),
        buyout,
        unit_price,
        quantity,
        time_left: AuctionTime::LONG,
    }
}

fn snapshot(auctions: Vec<Auction>) -> AuctionResponse {
    AuctionResponse::new(ConnectedRealmLink::new("https://realm".to_string()), auctions)
}

#[test]
fn lowest_unit_price_per_item() {
    let r = snapshot(vec![
        listing(1, 42, None, Some(50), 1),
        listing(2, 42, None, Some(30), 2),
        listing(3, 42, None, Some(40), 3),
    ])
    .best_auctions();
    assert_eq!(r, vec![AuctionRow { item_id: 42, auction_id: 2, quantity: 2, unit_price: 30 }]);
}

#[test]
fn buyout_only_items_produce_no_row() {
    let r = snapshot(vec![listing(1, 7, Some(100), None, 1)]).best_auctions();
    assert!(r.is_empty());
    let r = snapshot(vec![
        listing(1, 7, Some(100), None, 1),
        listing(2, 8, None, Some(5), 1),
        listing(3, 8, Some(1), None, 1),
    ])
    .best_auctions();
    assert_eq!(r, vec![AuctionRow { item_id: 8, auction_id: 2, quantity: 1, unit_price: 5 }]);
}

#[test]
fn ties_go_to_lowest_auction_id() {
    let r = snapshot(vec![
        listing(9, 42, None, Some(30), 1),
        listing(4, 42, None, Some(30), 5),
        listing(6, 42, None, Some(30), 2),
    ])
    .best_auctions();
    assert_eq!(r, vec![AuctionRow { item_id: 42, auction_id: 4, quantity: 5, unit_price: 30 }]);
}

#[test]
fn one_row_per_item_in_ascending_item_order() {
    let r = snapshot(vec![
        listing(1, 3, None, Some(10), 1),
        listing(2, 1, None, Some(20), 1),
        listing(3, 3, None, Some(5), 1),
        listing(4, 2, None, Some(7), 1),
        listing(5, 1, None, Some(15), 1),
        listing(6, 2, None, Some(70), 1),
    ])
    .best_auctions();
    assert_eq!(
        r,
        vec![
            AuctionRow { item_id: 1, auction_id: 5, quantity: 1, unit_price: 15 },
            AuctionRow { item_id: 2, auction_id: 4, quantity: 1, unit_price: 7 },
            AuctionRow { item_id: 3, auction_id: 3, quantity: 1, unit_price: 5 },
        ]
    );
}

#[test]
fn empty_snapshot_reduces_to_nothing() {
    assert!(snapshot(vec![]).best_auctions().is_empty());
}

#[test]
fn row_of_a_listing() {
    assert_eq!(
        listing(3, 42, Some(9), Some(4), 6).row(),
        Some(AuctionRow { item_id: 42, auction_id: 3, quantity: 6, unit_price: 4 })
    );
    assert_eq!(listing(3, 42, Some(9), None, 6).row(), None);
    assert_eq!(AuctionTime::VERY_LONG.name(), "VERY_LONG");
    assert_eq!(AuctionTime::SHORT.name(), "SHORT");
}
