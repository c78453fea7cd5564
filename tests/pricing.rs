use cephalon::orders::{
    median_of_prices, price_of_orders, select_prices, sort_prices, Order, OrderType, Platform,
    User, UserStatus,
};

fn order(platinum: u32, status: UserStatus) -> Order {
    order_on(platinum, status, Platform::Pc, "en", OrderType::Buy)
}

fn order_on(
    platinum: u32,
    status: UserStatus,
    platform: Platform,
    region: &str,
    order_type: OrderType,
) -> Order {
    Order {
        quantity: 1,
        platinum,
        order_type,
        visible: true,
        platform,
        creation_date: 0,
        last_update: 0,
        id: format!("order-{platinum}"),
        region: region.to_string(),
        user: User {
            reputation: 0,
            locale: "en".to_string(),
            avatar: None,
            ingame_name: "someone".to_string(),
            last_seen: 0,
            id: "user".to_string(),
            region: region.to_string(),
            status,
        },
    }
}

#[test]
fn median_of_odd_sorted_list() {
    assert_eq!(median_of_prices(&vec![10, 20, 30]), 20);
}

#[test]
fn median_of_even_sorted_list_is_upper() {
    assert_eq!(median_of_prices(&vec![10, 20, 30, 40]), 30);
}

#[test]
fn median_of_empty_list_is_zero() {
    assert_eq!(median_of_prices(&vec![]), 0);
}

#[test]
fn median_of_unsorted_list_sorts_first() {
    assert_eq!(median_of_prices(&vec![40, 10, 30, 20, 50]), 30);
    assert_eq!(median_of_prices(&vec![7]), 7);
}

#[test]
fn sort_prices_orders_ascending_with_duplicates() {
    assert_eq!(sort_prices(&vec![5, 3, 9, 3, 1]), vec![1, 3, 3, 5, 9]);
}

#[test]
fn four_online_of_five_uses_only_online() {
    let orders = vec![
        order(10, UserStatus::Online),
        order(20, UserStatus::Ingame),
        order(30, UserStatus::Online),
        order(40, UserStatus::Ingame),
        order(1, UserStatus::Offline),
    ];
    assert_eq!(select_prices(&orders), vec![10, 20, 30, 40]);
    assert_eq!(price_of_orders(&orders), 30);
}

#[test]
fn two_online_of_five_uses_all() {
    let orders = vec![
        order(10, UserStatus::Online),
        order(20, UserStatus::Offline),
        order(30, UserStatus::Ingame),
        order(40, UserStatus::Offline),
        order(50, UserStatus::Offline),
    ];
    assert_eq!(select_prices(&orders), vec![10, 20, 30, 40, 50]);
    assert_eq!(price_of_orders(&orders), 30);
}

#[test]
fn exactly_three_online_is_not_enough() {
    let orders = vec![
        order(100, UserStatus::Online),
        order(110, UserStatus::Online),
        order(120, UserStatus::Online),
        order(1, UserStatus::Offline),
    ];
    assert_eq!(select_prices(&orders), vec![100, 110, 120, 1]);
    assert_eq!(price_of_orders(&orders), 110);
}

#[test]
fn only_pc_en_buy_orders_count() {
    let orders = vec![
        order_on(5, UserStatus::Online, Platform::Xbox, "en", OrderType::Buy),
        order_on(6, UserStatus::Online, Platform::Pc, "de", OrderType::Buy),
        order_on(7, UserStatus::Online, Platform::Pc, "en", OrderType::Sell),
        order_on(8, UserStatus::Online, Platform::Pc, "en", OrderType::Buy),
    ];
    assert_eq!(select_prices(&orders), vec![8]);
    assert_eq!(price_of_orders(&orders), 8);
}

#[test]
fn no_matching_orders_price_zero() {
    let orders = vec![order_on(
        5,
        UserStatus::Online,
        Platform::Switch,
        "en",
        OrderType::Buy,
    )];
    assert_eq!(price_of_orders(&orders), 0);
    assert_eq!(price_of_orders(&vec![]), 0);
}
