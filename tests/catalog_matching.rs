use cephalon::catalog::{
    build_set, catalog_from_responses, is_eligible_item_name, item_detail_names,
    relic_detail_names, relic_from_members, relics_from_responses, Catalog, Item, ItemIdentifier,
    SetMember,
};

fn item(id: &str, name: &str) -> Item {
    Item {
        id: id.to_string(),
        id_name: name.to_lowercase().replace(' ', "_"),
        name: name.to_string(),
        trading_tax: 2000,
        set_id: "set".to_string(),
        ducats: 45,
        quantity_for_set: 1,
    }
}

fn catalog(names: &[&str]) -> Catalog {
    let mut c = Catalog::new();
    for (i, n) in names.iter().enumerate() {
        c.insert_item(item(&format!("id{i}"), n));
    }
    c
}

fn member(id: &str, name: &str, root: bool) -> SetMember {
    SetMember {
        id: id.to_string(),
        url_name: name.to_lowercase().replace(' ', "_"),
        set_root: root,
        trading_tax: 100,
        ducats: 15,
        quantity_for_set: 1,
        vaulted: false,
        tags: vec![],
        item_name: name.to_string(),
    }
}

#[test]
fn match_with_one_name_returns_it() {
    let c = catalog(&["Lex Prime Receiver", "Oberon Prime Blueprint"]);
    let m = c.match_item("xx Lex Prime Receiver yy").unwrap();
    assert_eq!(m.name, "Lex Prime Receiver");
    assert_eq!(m.id, "id0");
}

#[test]
fn match_with_two_names_returns_none() {
    let c = catalog(&["Lex Prime Receiver", "Oberon Prime Blueprint"]);
    assert!(c
        .match_item("Lex Prime Receiver Oberon Prime Blueprint")
        .is_none());
}

#[test]
fn match_with_no_name_returns_none() {
    let c = catalog(&["Lex Prime Receiver"]);
    assert!(c.match_item("Forma Blueprint").is_none());
    assert!(c.match_item("").is_none());
}

#[test]
fn match_with_prefix_names_is_ambiguous() {
    let c = catalog(&["Shade Prime Systems", "Shade Prime Systems Blueprint"]);
    assert!(c.match_item("Shade Prime Systems Blueprint").is_none());
    assert_eq!(
        c.match_item("Shade Prime Systems").unwrap().name,
        "Shade Prime Systems"
    );
}

#[test]
fn insert_item_replaces_same_id() {
    let mut c = Catalog::new();
    c.insert_item(item("a", "First"));
    c.insert_item(item("b", "Second"));
    c.insert_item(item("a", "Third"));
    let names: Vec<&str> = c.items().iter().map(|i| i.name.as_str()).collect();
    assert_eq!(names, vec!["Third", "Second"]);
}

#[test]
fn eligibility_of_item_names() {
    assert!(is_eligible_item_name("lex_prime_receiver"));
    assert!(!is_eligible_item_name("primed_continuity"));
    assert!(!is_eligible_item_name("gotva_prime"));
    assert!(!is_eligible_item_name("forma_blueprint"));
}

#[test]
fn detail_names_split_by_kind() {
    let ids = vec![
        ItemIdentifier::from_listing("lith_a1_relic".to_string(), Some(true)),
        ItemIdentifier::from_listing("lex_prime_receiver".to_string(), None),
        ItemIdentifier::from_listing("primed_flow".to_string(), None),
        ItemIdentifier::from_listing("axi_b2_relic".to_string(), Some(false)),
        ItemIdentifier::from_listing("gotva_prime".to_string(), None),
    ];
    assert_eq!(item_detail_names(&ids), vec!["lex_prime_receiver".to_string()]);
    assert_eq!(
        relic_detail_names(&ids),
        vec!["lith_a1_relic".to_string(), "axi_b2_relic".to_string()]
    );
}

#[test]
fn build_set_splits_root_and_parts() {
    let members = vec![
        member("part_a", "Lex Prime Receiver", false),
        member("root", "Lex Prime Set", true),
        member("part_b", "Lex Prime Barrel", false),
    ];
    let (set, items) = build_set(&members).unwrap();
    assert_eq!(set.id, "root");
    assert_eq!(set.name, "Lex Prime Set");
    assert_eq!(set.part_ids, vec!["part_a".to_string(), "part_b".to_string()]);
    assert_eq!(items.len(), 2);
    assert_eq!(items[0].name, "Lex Prime Receiver");
    assert_eq!(items[1].set_id, "root");
}

#[test]
fn build_set_without_root_fails() {
    let members = vec![member("part_a", "Lex Prime Receiver", false)];
    assert!(build_set(&members).is_none());
}

#[test]
fn catalog_from_responses_fails_fast_and_folds() {
    let good = vec![
        member("root", "Lex Prime Set", true),
        member("part_a", "Lex Prime Receiver", false),
    ];
    let other = vec![
        member("root2", "Oberon Prime Set", true),
        member("part_b", "Oberon Prime Blueprint", false),
    ];
    let c = catalog_from_responses(&vec![good.clone(), other]).unwrap();
    assert_eq!(c.items().len(), 2);
    assert_eq!(c.sets().len(), 2);
    assert!(catalog_from_responses(&vec![good, vec![member("x", "X", false)]]).is_none());
}

#[test]
fn relic_from_last_member_with_era() {
    let mut m = member("r1", "Lith A1 Relic", false);
    m.tags = vec!["relic".to_string(), "lith".to_string()];
    m.vaulted = true;
    let relic = relic_from_members(&vec![member("z", "Other", false), m.clone()]).unwrap();
    assert_eq!(relic.id, "r1");
    assert_eq!(relic.era, "lith");
    assert!(relic.vaulted);
    let mut no_era = m.clone();
    no_era.tags = vec!["relic".to_string()];
    assert!(relic_from_members(&vec![no_era.clone()]).is_none());
    assert!(relic_from_members(&vec![]).is_none());
    assert_eq!(relics_from_responses(&vec![vec![m], vec![no_era]]).len(), 1);
}

#[test]
fn one_set_described_twice_with_different_parts_fails() {
    let first = vec![
        member("root", "Lex Prime Set", true),
        member("part_a", "Lex Prime Receiver", false),
        member("part_b", "Lex Prime Barrel", false),
    ];
    let second = vec![
        member("root", "Lex Prime Set", true),
        member("part_a", "Lex Prime Receiver", false),
    ];
    assert!(catalog_from_responses(&vec![first.clone(), second]).is_none());
    let c = catalog_from_responses(&vec![first.clone(), first]).unwrap();
    assert_eq!(c.sets().len(), 1);
    assert_eq!(c.items().len(), 2);
    assert!(c.parts_match());
}

#[test]
fn part_listed_twice_or_in_two_sets_fails() {
    let twice = vec![
        member("root", "Lex Prime Set", true),
        member("part_a", "Lex Prime Receiver", false),
        member("part_a", "Lex Prime Receiver", false),
    ];
    assert!(catalog_from_responses(&vec![twice]).is_none());
    let one = vec![member("r1", "One Set", true), member("part_a", "Shared", false)];
    let two = vec![member("r2", "Two Set", true), member("part_a", "Shared", false)];
    assert!(catalog_from_responses(&vec![one, two]).is_none());
}

#[test]
fn empty_catalog_is_consistent() {
    let c = catalog_from_responses(&vec![]).unwrap();
    assert!(c.items().is_empty());
    assert!(c.parts_match());
}
