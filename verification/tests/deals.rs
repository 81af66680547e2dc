use murabaha::{Error, MurabahaContract};

#[test]
fn test_create_deal() {
    let mut contract = MurabahaContract::new();
    let client: u64 = 1;

    let price: i128 = 5000;
    let profit: i128 = 500;

    let deal_id = contract.create_deal(client, price, profit).unwrap();
    assert_eq!(deal_id, 1);

    let deal = contract.get_deal(deal_id).unwrap();
    assert_eq!(deal.client, client);
    assert_eq!(deal.asset_price, price);
    assert_eq!(deal.profit_margin, profit);
    assert_eq!(deal.total_debt, price + profit);
    assert_eq!(deal.is_paid, false);
}

#[test]
fn test_mark_as_paid() {
    let mut contract = MurabahaContract::new();
    let client: u64 = 1;

    let deal_id = contract.create_deal(client, 5000, 500).unwrap();

    let result = contract.mark_as_paid(deal_id).unwrap();
    assert_eq!(result, true);

    let deal = contract.get_deal(deal_id).unwrap();
    assert_eq!(deal.is_paid, true);
}

#[test]
fn test_get_client_deals() {
    let mut contract = MurabahaContract::new();
    let client1: u64 = 1;
    let client2: u64 = 2;

    let deal_id1 = contract.create_deal(client1, 5000, 500).unwrap();
    let deal_id2 = contract.create_deal(client1, 3000, 300).unwrap();
    let _deal_id3 = contract.create_deal(client2, 2000, 200).unwrap();

    let client1_deals = contract.get_client_deals(client1);
    assert_eq!(client1_deals.len(), 2);
    assert!(client1_deals.contains(&deal_id1));
    assert!(client1_deals.contains(&deal_id2));
}

#[test]
fn test_example_scenario() {
    let mut contract = MurabahaContract::new();
    let client: u64 = 9;

    let id1 = contract.create_deal(client, 5000, 500).unwrap();
    assert_eq!(id1, 1);
    let deal1 = contract.get_deal(id1).unwrap();
    assert_eq!(deal1.total_debt, 5500);
    assert_eq!(deal1.is_paid, false);

    let id2 = contract.create_deal(client, 3000, 300).unwrap();
    assert_eq!(id2, 2);

    assert_eq!(contract.get_client_deals(client), vec![1, 2]);

    assert_eq!(contract.mark_as_paid(1), Ok(true));
    assert_eq!(contract.get_deal(1).unwrap().is_paid, true);
    assert_eq!(contract.get_deal(2).unwrap().is_paid, false);
}

#[test]
fn test_create_deal_invalid_terms() {
    let mut contract = MurabahaContract::new();

    assert_eq!(contract.create_deal(1, 0, 500), Err(Error::InvalidTerms));
    assert_eq!(contract.create_deal(1, -5000, 500), Err(Error::InvalidTerms));
    assert_eq!(contract.create_deal(1, 5000, -1), Err(Error::InvalidTerms));

    // A failed creation records nothing and consumes no identifier.
    assert_eq!(contract.get_deal(1), Err(Error::NotFound));
    assert!(contract.get_client_deals(1).is_empty());
    assert_eq!(contract.create_deal(1, 5000, 500), Ok(1));
}

#[test]
fn test_not_found() {
    let mut contract = MurabahaContract::new();

    assert_eq!(contract.get_deal(1), Err(Error::NotFound));
    assert_eq!(contract.mark_as_paid(1), Err(Error::NotFound));

    let id = contract.create_deal(3, 5000, 500).unwrap();
    assert_eq!(contract.get_deal(0), Err(Error::NotFound));
    assert_eq!(contract.mark_as_paid(0), Err(Error::NotFound));
    assert_eq!(contract.get_deal(id + 1), Err(Error::NotFound));
    assert_eq!(contract.mark_as_paid(id + 1), Err(Error::NotFound));
}

#[test]
fn test_mark_as_paid_idempotent() {
    let mut contract = MurabahaContract::new();
    let id = contract.create_deal(4, 5000, 500).unwrap();

    assert_eq!(contract.mark_as_paid(id), Ok(true));
    assert_eq!(contract.get_deal(id).unwrap().is_paid, true);

    assert_eq!(contract.mark_as_paid(id), Ok(true));
    let deal = contract.get_deal(id).unwrap();
    assert_eq!(deal.is_paid, true);

    // Settling changes no other field.
    assert_eq!(deal.client, 4);
    assert_eq!(deal.asset_price, 5000);
    assert_eq!(deal.profit_margin, 500);
    assert_eq!(deal.total_debt, 5500);
}

#[test]
fn test_identifiers_strictly_increasing() {
    let mut contract = MurabahaContract::new();

    let id1 = contract.create_deal(1, 100, 0).unwrap();
    let id2 = contract.create_deal(2, 200, 20).unwrap();
    let id3 = contract.create_deal(1, 300, 30).unwrap();
    assert_eq!((id1, id2, id3), (1, 2, 3));
    assert!(id1 < id2 && id2 < id3);
}

#[test]
fn test_get_client_deals_ascending_and_exact() {
    let mut contract = MurabahaContract::new();
    let alice: u64 = 10;
    let bob: u64 = 20;

    contract.create_deal(alice, 100, 1).unwrap();
    contract.create_deal(bob, 200, 2).unwrap();
    contract.create_deal(alice, 300, 3).unwrap();
    contract.create_deal(alice, 400, 4).unwrap();

    assert_eq!(contract.get_client_deals(alice), vec![1, 3, 4]);
    assert_eq!(contract.get_client_deals(bob), vec![2]);
    assert_eq!(contract.get_client_deals(99), Vec::<u64>::new());
}

#[test]
fn test_minimal_valid_terms() {
    let mut contract = MurabahaContract::new();

    // The smallest accepted terms: price 1, profit 0.
    let id = contract.create_deal(5, 1, 0).unwrap();
    let deal = contract.get_deal(id).unwrap();
    assert_eq!(deal.asset_price, 1);
    assert_eq!(deal.profit_margin, 0);
    assert_eq!(deal.total_debt, 1);
}
