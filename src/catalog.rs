//! The catalog of recognizable items, sets and relics, how it is assembled
//! from the market's listings and item details, and how OCR text is matched
//! against it.

use vstd::prelude::*;

use crate::text::{chars_of, contains_chars, occurs_in, same_text};

verus! {

/// A tradable part of a set.
#[derive(Debug, PartialEq, Eq)]
pub struct Item {
    pub id: String,
    pub id_name: String,
    pub name: String,
    pub trading_tax: u32,
    pub set_id: String,
    pub ducats: u32,
    pub quantity_for_set: u32,
}

impl Clone for Item {
    fn clone(&self) -> (r: Self)
        ensures
            r == *self,
    {
        Item {
            id: self.id.clone(),
            id_name: self.id_name.clone(),
            name: self.name.clone(),
            trading_tax: self.trading_tax,
            set_id: self.set_id.clone(),
            ducats: self.ducats,
            quantity_for_set: self.quantity_for_set,
        }
    }
}

/// A set, with the ids of the items that make it up.
#[derive(Debug, PartialEq, Eq)]
pub struct ItemSet {
    pub id: String,
    pub id_name: String,
    pub name: String,
    pub part_ids: Vec<String>,
}

/// Copies a list of strings.
fn copy_strings(v: &Vec<String>) -> (r: Vec<String>)
    ensures
        r@ == v@,
{
    let mut r: Vec<String> = Vec::new();
    let mut i: usize = 0;
    while i < v.len()
        invariant
            i <= v@.len(),
            r@ == v@.take(i as int),
        decreases v@.len() - i,
    {
        r.push(v[i].clone());
        i = i + 1;
        assert(r@ =~= v@.take(i as int));
    }
    assert(v@.take(i as int) =~= v@);
    r
}

impl ItemSet {
    /// Whether two sets hold the same values.
    pub open spec fn same_as(self, other: ItemSet) -> bool {
        &&& self.id == other.id
        &&& self.id_name == other.id_name
        &&& self.name == other.name
        &&& self.part_ids@ == other.part_ids@
    }
}

impl Clone for ItemSet {
    fn clone(&self) -> (r: Self)
        ensures
            r.same_as(*self),
    {
        ItemSet {
            id: self.id.clone(),
            id_name: self.id_name.clone(),
            name: self.name.clone(),
            part_ids: copy_strings(&self.part_ids),
        }
    }
}

/// A relic.
#[derive(Debug, Clone, PartialEq, Eq)]
pub struct Relic {
    pub id: String,
    pub id_name: String,
    pub name: String,
    pub vaulted: bool,
    pub era: String,
    pub trading_tax: u32,
}

/// An entry of the market's item listing, by kind.
#[derive(Debug, Clone, PartialEq, Eq)]
pub enum ItemIdentifier {
    Relic { id_name: String },
    Item { id_name: String },
}

impl ItemIdentifier {
    /// The identifier for a listing entry: a relic when the entry states
    /// whether it is vaulted, else an item.
    pub fn from_listing(url_name: String, vaulted: Option<bool>) -> (r: ItemIdentifier)
        ensures
            r == (if vaulted is Some {
                ItemIdentifier::Relic { id_name: url_name }
            } else {
                ItemIdentifier::Item { id_name: url_name }
            }),
    {
        match vaulted {
            Some(_) => ItemIdentifier::Relic { id_name: url_name },
            None => ItemIdentifier::Item { id_name: url_name },
        }
    }
}

/// One member of the set that an item-detail response lists.
#[derive(Debug, Clone, PartialEq, Eq)]
pub struct SetMember {
    pub id: String,
    pub url_name: String,
    pub set_root: bool,
    pub trading_tax: u32,
    pub ducats: u32,
    pub quantity_for_set: u32,
    pub vaulted: bool,
    pub tags: Vec<String>,
    pub item_name: String,
}

/// An item name whose details are fetched: it contains "prime", does not
/// contain "primed", and is not the known false positive "gotva_prime".
pub open spec fn is_eligible_name(name: Seq<char>) -> bool {
    &&& occurs_in(name, "prime"@)
    &&& !occurs_in(name, "primed"@)
    &&& name != "gotva_prime"@
}

/// The names of the item identifiers that are eligible for a detail fetch,
/// in listing order.
pub open spec fn eligible_item_names(ids: Seq<ItemIdentifier>) -> Seq<Seq<char>>
    decreases ids.len(),
{
    if ids.len() == 0 {
        Seq::empty()
    } else {
        let rest = eligible_item_names(ids.drop_last());
        match ids.last() {
            ItemIdentifier::Item { id_name } => if is_eligible_name(id_name@) {
                rest.push(id_name@)
            } else {
                rest
            },
            ItemIdentifier::Relic { .. } => rest,
        }
    }
}

/// The names of the relic identifiers, in listing order.
pub open spec fn relic_names(ids: Seq<ItemIdentifier>) -> Seq<Seq<char>>
    decreases ids.len(),
{
    if ids.len() == 0 {
        Seq::empty()
    } else {
        let rest = relic_names(ids.drop_last());
        match ids.last() {
            ItemIdentifier::Relic { id_name } => rest.push(id_name@),
            ItemIdentifier::Item { .. } => rest,
        }
    }
}

/// The characters of each string.
pub open spec fn texts(v: Seq<String>) -> Seq<Seq<char>> {
    v.map_values(|s: String| s@)
}

/// Whether an item name is eligible for a detail fetch.
pub fn is_eligible_item_name(name: &str) -> (r: bool)
    ensures
        r == is_eligible_name(name@),
{
    let n = chars_of(name);
    let prime = chars_of("prime");
    let primed = chars_of("primed");
    contains_chars(&n, &prime) && !contains_chars(&n, &primed) && !same_text(name, "gotva_prime")
}

/// The names whose item details are fetched, in listing order.
pub fn item_detail_names(ids: &Vec<ItemIdentifier>) -> (r: Vec<String>)
    ensures
        texts(r@) == eligible_item_names(ids@),
{
    let mut r: Vec<String> = Vec::new();
    let mut i: usize = 0;
    while i < ids.len()
        invariant
            i <= ids@.len(),
            texts(r@) == eligible_item_names(ids@.take(i as int)),
        decreases ids@.len() - i,
    {
        assert(ids@.take(i + 1).drop_last() =~= ids@.take(i as int));
        let ghost before = r@;
        match &ids[i] {
            ItemIdentifier::Item { id_name } => {
                if is_eligible_item_name(id_name.as_str()) {
                    r.push(id_name.clone());
                    assert(texts(r@) =~= texts(before).push(id_name@));
                }
            },
            ItemIdentifier::Relic { .. } => {},
        }
        i = i + 1;
    }
    assert(ids@.take(i as int) =~= ids@);
    r
}

/// The names whose relic details are fetched, in listing order.
pub fn relic_detail_names(ids: &Vec<ItemIdentifier>) -> (r: Vec<String>)
    ensures
        texts(r@) == relic_names(ids@),
{
    let mut r: Vec<String> = Vec::new();
    let mut i: usize = 0;
    while i < ids.len()
        invariant
            i <= ids@.len(),
            texts(r@) == relic_names(ids@.take(i as int)),
        decreases ids@.len() - i,
    {
        assert(ids@.take(i + 1).drop_last() =~= ids@.take(i as int));
        let ghost before = r@;
        match &ids[i] {
            ItemIdentifier::Relic { id_name } => {
                r.push(id_name.clone());
                assert(texts(r@) =~= texts(before).push(id_name@));
            },
            ItemIdentifier::Item { .. } => {},
        }
        i = i + 1;
    }
    assert(ids@.take(i as int) =~= ids@);
    r
}

/// There is a member that is the root of the set.
pub open spec fn has_root(m: Seq<SetMember>) -> bool {
    exists|i: int| 0 <= i < m.len() && m[i].set_root
}

/// `m[i]` is the first member that is the root of the set.
pub open spec fn is_first_root(m: Seq<SetMember>, i: int) -> bool {
    &&& 0 <= i < m.len()
    &&& m[i].set_root
    &&& forall|j: int| 0 <= j < i ==> !m[j].set_root
}

/// The members that are parts of the set, in order.
pub open spec fn parts_of(m: Seq<SetMember>) -> Seq<SetMember>
    decreases m.len(),
{
    if m.len() == 0 {
        Seq::empty()
    } else if m.last().set_root {
        parts_of(m.drop_last())
    } else {
        parts_of(m.drop_last()).push(m.last())
    }
}

/// The item that a part member describes, as a member of set `set_id`.
pub open spec fn item_of_member(p: SetMember, set_id: String) -> Item {
    Item {
        id: p.id,
        id_name: p.url_name,
        name: p.item_name,
        trading_tax: p.trading_tax,
        set_id: set_id,
        ducats: p.ducats,
        quantity_for_set: p.quantity_for_set,
    }
}

/// The set and its parts that an item-detail response describes, given that
/// `m[root]` is its first root member.
pub open spec fn set_of_members(m: Seq<SetMember>, root: int, set: ItemSet, items: Seq<Item>) -> bool {
    let r = m[root];
    let parts = parts_of(m);
    &&& set.id == r.id
    &&& set.id_name == r.url_name
    &&& set.name == r.item_name
    &&& texts(set.part_ids@) == parts.map_values(|p: SetMember| p.id@)
    &&& items == parts.map_values(|p: SetMember| item_of_member(p, r.id))
}

/// Splits the members of a set into the set itself, from its first root
/// member, and its parts, which become items of that set. `None` when no
/// member is a root.
pub fn build_set(members: &Vec<SetMember>) -> (r: Option<(ItemSet, Vec<Item>)>)
    ensures
        match r {
            Some((set, items)) => exists|i: int|
                is_first_root(members@, i) && set_of_members(members@, i, set, items@),
            None => !has_root(members@),
        },
{
    let n = members.len();
    let mut k: usize = 0;
    while k < n && !members[k].set_root
        invariant
            n == members@.len(),
            k <= n,
            forall|j: int| 0 <= j < k ==> !members@[j].set_root,
        decreases n - k,
    {
        k = k + 1;
    }
    if k == n {
        return None;
    }
    let root = &members[k];
    let mut part_ids: Vec<String> = Vec::new();
    let mut items: Vec<Item> = Vec::new();
    let mut i: usize = 0;
    while i < n
        invariant
            n == members@.len(),
            k < n,
            *root == members@[k as int],
            i <= n,
            texts(part_ids@) == parts_of(members@.take(i as int)).map_values(|p: SetMember| p.id@),
            items@ == parts_of(members@.take(i as int)).map_values(
                |p: SetMember| item_of_member(p, root.id),
            ),
        decreases n - i,
    {
        let m = &members[i];
        assert(members@.take(i + 1).drop_last() =~= members@.take(i as int));
        assert(members@.take(i + 1).last() == members@[i as int]);
        let ghost ids_before = part_ids@;
        let ghost items_before = items@;
        if !m.set_root {
            part_ids.push(m.id.clone());
            items.push(
                Item {
                    id: m.id.clone(),
                    id_name: m.url_name.clone(),
                    name: m.item_name.clone(),
                    trading_tax: m.trading_tax,
                    set_id: root.id.clone(),
                    ducats: m.ducats,
                    quantity_for_set: m.quantity_for_set,
                },
            );
            assert(texts(part_ids@) =~= texts(ids_before).push(m.id@));
            assert(parts_of(members@.take(i + 1)) == parts_of(members@.take(i as int)).push(*m));
            assert(parts_of(members@.take(i + 1)).map_values(|p: SetMember| p.id@) =~= parts_of(
                members@.take(i as int),
            ).map_values(|p: SetMember| p.id@).push(m.id@));
            assert(parts_of(members@.take(i + 1)).map_values(
                |p: SetMember| item_of_member(p, root.id),
            ) =~= parts_of(members@.take(i as int)).map_values(
                |p: SetMember| item_of_member(p, root.id),
            ).push(item_of_member(*m, root.id)));
        }
        i = i + 1;
    }
    assert(members@.take(i as int) =~= members@);
    let set = ItemSet {
        id: root.id.clone(),
        id_name: root.url_name.clone(),
        name: root.item_name.clone(),
        part_ids,
    };
    assert(is_first_root(members@, k as int));
    Some((set, items))
}

/// The first tag other than "relic": the era of a relic.
pub open spec fn era_tag(tags: Seq<String>) -> Option<String>
    decreases tags.len(),
{
    if tags.len() == 0 {
        None
    } else if tags[0]@ != seq!['r', 'e', 'l', 'i', 'c'] {
        Some(tags[0])
    } else {
        era_tag(tags.drop_first())
    }
}

/// The relic that a relic-detail response describes: its last member, with
/// its first tag other than "relic" as era; none without members or era.
pub open spec fn relic_of_members(m: Seq<SetMember>) -> Option<Relic> {
    if m.len() == 0 {
        None
    } else {
        let x = m.last();
        match era_tag(x.tags@) {
            Some(era) => Some(
                Relic {
                    id: x.id,
                    id_name: x.url_name,
                    name: x.item_name,
                    vaulted: x.vaulted,
                    era: era,
                    trading_tax: x.trading_tax,
                },
            ),
            None => None,
        }
    }
}

/// The relic that the members of a relic-detail response describe.
pub fn relic_from_members(members: &Vec<SetMember>) -> (r: Option<Relic>)
    ensures
        r == relic_of_members(members@),
{
    if members.len() == 0 {
        return None;
    }
    let x = &members[members.len() - 1];
    assert(*x == members@.last());
    let relic = "relic";
    proof {
        reveal_strlit("relic");
        assert(relic@ =~= seq!['r', 'e', 'l', 'i', 'c']);
    }
    let mut i: usize = 0;
    assert(x.tags@.skip(0) =~= x.tags@);
    while i < x.tags.len()
        invariant
            i <= x.tags@.len(),
            members@.len() > 0,
            *x == members@.last(),
            relic@ == seq!['r', 'e', 'l', 'i', 'c'],
            era_tag(x.tags@) == era_tag(x.tags@.skip(i as int)),
        decreases x.tags@.len() - i,
    {
        assert(x.tags@.skip(i as int).drop_first() =~= x.tags@.skip(i + 1));
        assert(x.tags@.skip(i as int)[0] == x.tags@[i as int]);
        if !same_text(x.tags[i].as_str(), relic) {
            return Some(
                Relic {
                    id: x.id.clone(),
                    id_name: x.url_name.clone(),
                    name: x.item_name.clone(),
                    vaulted: x.vaulted,
                    era: x.tags[i].clone(),
                    trading_tax: x.trading_tax,
                },
            );
        }
        i = i + 1;
    }
    assert(x.tags@.skip(i as int) =~= Seq::<String>::empty());
    None
}

/// No two entries share a key.
pub open spec fn unique_keys<T>(s: Seq<T>, key: spec_fn(T) -> Seq<char>) -> bool {
    forall|i: int, j: int| 0 <= i < j < s.len() ==> key(s[i]) != key(s[j])
}

/// Entry `j` has the key of `x`.
pub open spec fn key_at<T>(s: Seq<T>, x: T, key: spec_fn(T) -> Seq<char>, j: int) -> bool {
    0 <= j < s.len() && key(s[j]) == key(x)
}

/// Keyed insertion: `x` replaces the entry with its key, or is appended when
/// there is none.
pub open spec fn put_keyed<T>(s: Seq<T>, x: T, key: spec_fn(T) -> Seq<char>) -> Seq<T> {
    if exists|j: int| key_at(s, x, key, j) {
        s.update(choose|j: int| key_at(s, x, key, j), x)
    } else {
        s.push(x)
    }
}

/// Keyed insertion of each of `xs`, in order.
pub open spec fn put_all_keyed<T>(s: Seq<T>, xs: Seq<T>, key: spec_fn(T) -> Seq<char>) -> Seq<T>
    decreases xs.len(),
{
    if xs.len() == 0 {
        s
    } else {
        put_keyed(put_all_keyed(s, xs.drop_last(), key), xs.last(), key)
    }
}

/// The key of an item: its id.
pub open spec fn item_key() -> spec_fn(Item) -> Seq<char> {
    |x: Item| x.id@
}

/// The key of a set: its id.
pub open spec fn set_key() -> spec_fn(ItemSet) -> Seq<char> {
    |x: ItemSet| x.id@
}

proof fn lemma_put_keyed_unique<T>(s: Seq<T>, x: T, key: spec_fn(T) -> Seq<char>)
    requires
        unique_keys(s, key),
    ensures
        unique_keys(put_keyed(s, x, key), key),
{
    if exists|j: int| key_at(s, x, key, j) {
        let j = choose|j: int| key_at(s, x, key, j);
        let t = s.update(j, x);
        assert forall|a: int, b: int| 0 <= a < b < t.len() implies key(t[a]) != key(t[b]) by {
            if a != j && b != j {
                assert(key(s[a]) != key(s[b]));
            } else if a == j {
                assert(key(s[j]) != key(s[b]));
            } else {
                assert(key(s[a]) != key(s[j]));
            }
        }
    } else {
        let t = s.push(x);
        assert forall|a: int, b: int| 0 <= a < b < t.len() implies key(t[a]) != key(t[b]) by {
            if b == s.len() {
                assert(!key_at(s, x, key, a));
            } else {
                assert(key(s[a]) != key(s[b]));
            }
        }
    }
}

/// The items and sets of the catalog, each kept once per id.
pub struct Catalog {
    items: Vec<Item>,
    sets: Vec<ItemSet>,
}

/// The catalog items whose name occurs in `text`, in catalog order.
pub open spec fn matches_of(items: Seq<Item>, text: Seq<char>) -> Seq<Item>
    decreases items.len(),
{
    if items.len() == 0 {
        Seq::empty()
    } else if occurs_in(text, items.last().name@) {
        matches_of(items.drop_last(), text).push(items.last())
    } else {
        matches_of(items.drop_last(), text)
    }
}

/// The item that `text` names: the one catalog item whose name occurs in
/// it, and none when no name or more than one occurs.
pub open spec fn matched_item(items: Seq<Item>, text: Seq<char>) -> Option<Item> {
    let m = matches_of(items, text);
    if m.len() == 1 {
        Some(m[0])
    } else {
        None
    }
}

proof fn lemma_matches_grow(items: Seq<Item>, text: Seq<char>)
    requires
        items.len() > 0,
    ensures
        matches_of(items, text).len() >= matches_of(items.drop_last(), text).len(),
{
}

proof fn lemma_no_matches(items: Seq<Item>, text: Seq<char>)
    requires
        forall|k: int| 0 <= k < items.len() ==> !occurs_in(text, #[trigger] items[k].name@),
    ensures
        matches_of(items, text) == Seq::<Item>::empty(),
    decreases items.len(),
{
    if items.len() > 0 {
        let d = items.drop_last();
        assert forall|k: int| 0 <= k < d.len() implies !occurs_in(text, #[trigger] d[k].name@) by {
            assert(d[k] == items[k]);
        }
        lemma_no_matches(d, text);
        assert(!occurs_in(text, items[items.len() - 1].name@));
    }
}

proof fn lemma_some_match(items: Seq<Item>, text: Seq<char>, i: int)
    requires
        0 <= i < items.len(),
        occurs_in(text, items[i].name@),
    ensures
        matches_of(items, text).len() >= 1,
    decreases items.len(),
{
    if i < items.len() - 1 {
        let d = items.drop_last();
        assert(d[i] == items[i]);
        lemma_some_match(d, text, i);
        lemma_matches_grow(items, text);
    }
}

proof fn lemma_two_matches(items: Seq<Item>, text: Seq<char>, i: int, j: int)
    requires
        0 <= i < j < items.len(),
        occurs_in(text, items[i].name@),
        occurs_in(text, items[j].name@),
    ensures
        matches_of(items, text).len() >= 2,
    decreases items.len(),
{
    let d = items.drop_last();
    assert(d[i] == items[i]);
    if j == items.len() - 1 {
        lemma_some_match(d, text, i);
    } else {
        assert(d[j] == items[j]);
        lemma_two_matches(d, text, i, j);
        lemma_matches_grow(items, text);
    }
}

proof fn lemma_one_match(items: Seq<Item>, text: Seq<char>, i: int)
    requires
        0 <= i < items.len(),
        occurs_in(text, items[i].name@),
        forall|k: int| 0 <= k < items.len() && k != i ==> !occurs_in(text, #[trigger] items[k].name@),
    ensures
        matches_of(items, text) == seq![items[i]],
    decreases items.len(),
{
    let d = items.drop_last();
    if i == items.len() - 1 {
        assert forall|k: int| 0 <= k < d.len() implies !occurs_in(text, #[trigger] d[k].name@) by {
            assert(d[k] == items[k]);
        }
        lemma_no_matches(d, text);
        assert(matches_of(items, text) =~= seq![items[i]]);
    } else {
        assert(d[i] == items[i]);
        assert forall|k: int| 0 <= k < d.len() && k != i implies !occurs_in(
            text,
            #[trigger] d[k].name@,
        ) by {
            assert(d[k] == items[k]);
        }
        lemma_one_match(d, text, i);
        assert(!occurs_in(text, items[items.len() - 1].name@));
    }
}

/// Text in which the name of exactly one catalog item occurs is matched to
/// that item.
pub proof fn lemma_match_unique_name(items: Seq<Item>, text: Seq<char>, i: int)
    requires
        0 <= i < items.len(),
        occurs_in(text, items[i].name@),
        forall|k: int| 0 <= k < items.len() && k != i ==> !occurs_in(text, #[trigger] items[k].name@),
    ensures
        matched_item(items, text) == Some(items[i]),
{
    lemma_one_match(items, text, i);
}

/// Text in which the names of two catalog items occur is matched to nothing.
pub proof fn lemma_match_two_names(items: Seq<Item>, text: Seq<char>, i: int, j: int)
    requires
        0 <= i < items.len(),
        0 <= j < items.len(),
        i != j,
        occurs_in(text, items[i].name@),
        occurs_in(text, items[j].name@),
    ensures
        matched_item(items, text) is None,
{
    if i < j {
        lemma_two_matches(items, text, i, j);
    } else {
        lemma_two_matches(items, text, j, i);
    }
}

/// Text in which no catalog item name occurs is matched to nothing.
pub proof fn lemma_match_no_name(items: Seq<Item>, text: Seq<char>)
    requires
        forall|k: int| 0 <= k < items.len() ==> !occurs_in(text, #[trigger] items[k].name@),
    ensures
        matched_item(items, text) is None,
{
    lemma_no_matches(items, text);
}

/// The item whose name occurs in `text`, when exactly one does.
pub fn match_item_chars(items: &Vec<Item>, text: &Vec<char>) -> (r: Option<Item>)
    ensures
        r == matched_item(items@, text@),
{
    let mut count: usize = 0;
    let mut first: usize = 0;
    let mut i: usize = 0;
    while i < items.len()
        invariant
            i <= items@.len(),
            count == matches_of(items@.take(i as int), text@).len(),
            count <= i,
            count > 0 ==> first < i && matches_of(items@.take(i as int), text@)[0]
                == items@[first as int],
        decreases items@.len() - i,
    {
        assert(items@.take(i + 1).drop_last() =~= items@.take(i as int));
        let name = chars_of(items[i].name.as_str());
        if contains_chars(text, &name) {
            if count == 0 {
                first = i;
            }
            count = count + 1;
        }
        i = i + 1;
    }
    assert(items@.take(i as int) =~= items@);
    if count == 1 {
        Some(items[first].clone())
    } else {
        None
    }
}

impl Catalog {
    /// Ids are unique among the items and among the sets.
    pub open spec fn wf(&self) -> bool {
        &&& unique_keys(self.item_seq(), item_key())
        &&& unique_keys(self.set_seq(), set_key())
    }

    /// The items, one per id.
    pub closed spec fn item_seq(&self) -> Seq<Item> {
        self.items@
    }

    /// The sets, one per id.
    pub closed spec fn set_seq(&self) -> Seq<ItemSet> {
        self.sets@
    }

    /// The catalog with no items and no sets.
    pub fn new() -> (r: Catalog)
        ensures
            r.wf(),
            r.item_seq() == Seq::<Item>::empty(),
            r.set_seq() == Seq::<ItemSet>::empty(),
    {
        Catalog { items: Vec::new(), sets: Vec::new() }
    }

    /// The items, one per id.
    pub fn items(&self) -> (r: &Vec<Item>)
        ensures
            r@ == self.item_seq(),
    {
        &self.items
    }

    /// The sets, one per id.
    pub fn sets(&self) -> (r: &Vec<ItemSet>)
        ensures
            r@ == self.set_seq(),
    {
        &self.sets
    }

    /// Adds an item, replacing the one with the same id.
    pub fn insert_item(&mut self, item: Item)
        requires
            old(self).wf(),
        ensures
            final(self).wf(),
            final(self).item_seq() == put_keyed(old(self).item_seq(), item, item_key()),
            final(self).set_seq() == old(self).set_seq(),
    {
        let ghost s = self.items@;
        proof {
            lemma_put_keyed_unique(s, item, item_key());
        }
        let mut j: usize = 0;
        while j < self.items.len()
            invariant
                s == self.items@,
                self.sets@ == old(self).sets@,
                unique_keys(self.sets@, set_key()),
                s == old(self).items@,
                unique_keys(s, item_key()),
                unique_keys(put_keyed(s, item, item_key()), item_key()),
                j <= s.len(),
                forall|k: int| 0 <= k < j ==> !key_at(s, item, item_key(), k),
            decreases s.len() - j,
        {
            if same_text(self.items[j].id.as_str(), item.id.as_str()) {
                assert(key_at(s, item, item_key(), j as int));
                let ghost c = choose|k: int| key_at(s, item, item_key(), k);
                assert(c == j) by {
                    if c != j {
                        assert(item_key()(s[c]) != item_key()(s[j as int]));
                    }
                }
                self.items.set(j, item);
                assert(self.items@ == put_keyed(s, item, item_key()));
                return;
            }
            j = j + 1;
        }
        self.items.push(item);
    }

    /// Adds a set, replacing the one with the same id.
    pub fn insert_set(&mut self, set: ItemSet)
        requires
            old(self).wf(),
        ensures
            final(self).wf(),
            final(self).set_seq() == put_keyed(old(self).set_seq(), set, set_key()),
            final(self).item_seq() == old(self).item_seq(),
    {
        let ghost s = self.sets@;
        proof {
            lemma_put_keyed_unique(s, set, set_key());
        }
        let mut j: usize = 0;
        while j < self.sets.len()
            invariant
                s == self.sets@,
                self.items@ == old(self).items@,
                unique_keys(self.items@, item_key()),
                s == old(self).sets@,
                unique_keys(s, set_key()),
                unique_keys(put_keyed(s, set, set_key()), set_key()),
                j <= s.len(),
                forall|k: int| 0 <= k < j ==> !key_at(s, set, set_key(), k),
            decreases s.len() - j,
        {
            if same_text(self.sets[j].id.as_str(), set.id.as_str()) {
                assert(key_at(s, set, set_key(), j as int));
                let ghost c = choose|k: int| key_at(s, set, set_key(), k);
                assert(c == j) by {
                    if c != j {
                        assert(set_key()(s[c]) != set_key()(s[j as int]));
                    }
                }
                self.sets.set(j, set);
                assert(self.sets@ == put_keyed(s, set, set_key()));
                return;
            }
            j = j + 1;
        }
        self.sets.push(set);
    }

    /// Adds a set and its parts.
    pub fn add_details(&mut self, set: ItemSet, parts: Vec<Item>)
        requires
            old(self).wf(),
        ensures
            final(self).wf(),
            final(self).set_seq() == put_keyed(old(self).set_seq(), set, set_key()),
            final(self).item_seq() == put_all_keyed(old(self).item_seq(), parts@, item_key()),
    {
        self.insert_set(set);
        let ghost start = self.item_seq();
        let ghost all = parts@;
        let mut parts = parts;
        let _ = parts.len();
        let mut done: usize = 0;
        while parts.len() > 0
            invariant
                self.wf(),
                done <= all.len(),
                all.len() <= usize::MAX,
                parts@ == all.skip(done as int),
                self.item_seq() == put_all_keyed(start, all.take(done as int), item_key()),
                self.set_seq() == put_keyed(old(self).set_seq(), set, set_key()),
            decreases parts@.len(),
        {
            let p = parts.remove(0);
            assert(all.take(done + 1).drop_last() =~= all.take(done as int));
            assert(all.take(done + 1).last() == p);
            self.insert_item(p);
            done = done + 1;
            assert(parts@ =~= all.skip(done as int));
        }
        assert(all.take(done as int) =~= all);
    }

    /// The catalog built from the sets and parts of each item-detail
    /// response, in order; a later entry replaces an earlier one with its id.
    pub fn from_details(details: Vec<(ItemSet, Vec<Item>)>) -> (r: Catalog)
        ensures
            r.wf(),
            r.set_seq() == catalog_sets(details@),
            r.item_seq() == catalog_items(details@),
    {
        let mut c = Catalog::new();
        let ghost all = details@;
        let mut details = details;
        let _ = details.len();
        let mut done: usize = 0;
        while details.len() > 0
            invariant
                c.wf(),
                done <= all.len(),
                all.len() <= usize::MAX,
                details@ == all.skip(done as int),
                c.set_seq() == catalog_sets(all.take(done as int)),
                c.item_seq() == catalog_items(all.take(done as int)),
            decreases details@.len(),
        {
            let (set, parts) = details.remove(0);
            assert(all.take(done + 1).drop_last() =~= all.take(done as int));
            assert(all.take(done + 1).last() == (set, parts));
            c.add_details(set, parts);
            done = done + 1;
            assert(details@ =~= all.skip(done as int));
        }
        assert(all.take(done as int) =~= all);
        c
    }

    /// The item that OCR text names: the one catalog item whose name occurs
    /// in it; none when no name or more than one occurs.
    pub fn match_item(&self, text: &str) -> (r: Option<Item>)
        ensures
            r == matched_item(self.item_seq(), text@),
    {
        let t = chars_of(text);
        match_item_chars(&self.items, &t)
    }
}

/// Each detail entry is the set and parts that the matching response
/// describes.
pub open spec fn responses_describe(
    responses: Seq<Vec<SetMember>>,
    details: Seq<(ItemSet, Vec<Item>)>,
) -> bool {
    &&& details.len() == responses.len()
    &&& forall|i: int| 0 <= i < responses.len() ==> #[trigger] describes(responses[i]@, details[i])
}

/// The set and parts that one item-detail response describes.
pub open spec fn describes(m: Seq<SetMember>, d: (ItemSet, Vec<Item>)) -> bool {
    exists|k: int| #[trigger] is_first_root(m, k) && set_of_members(m, k, d.0, d.1@)
}

/// No two of the strings hold the same characters.
pub open spec fn distinct_texts(v: Seq<String>) -> bool {
    forall|a: int, b: int| 0 <= a < b < v.len() ==> #[trigger] v[a]@ != #[trigger] v[b]@
}

/// Some item has id `id` and belongs to set `set_id`.
pub open spec fn has_member(items: Seq<Item>, id: Seq<char>, set_id: Seq<char>) -> bool {
    exists|j: int| 0 <= j < items.len() && #[trigger] items[j].id@ == id && items[j].set_id@ == set_id
}

/// Some set with id `set_id` lists `item_id` among its parts.
pub open spec fn set_lists(sets: Seq<ItemSet>, set_id: Seq<char>, item_id: Seq<char>) -> bool {
    exists|i: int, p: int|
        0 <= i < sets.len() && 0 <= p < sets[i].part_ids@.len() && sets[i].id@ == set_id
            && #[trigger] sets[i].part_ids@[p]@ == item_id
}

/// Sets and items agree: each set lists each of its parts once, each listed
/// part is an item of that set, and each item belongs to a set that lists it.
pub open spec fn parts_match_items(items: Seq<Item>, sets: Seq<ItemSet>) -> bool {
    &&& forall|i: int| 0 <= i < sets.len() ==> distinct_texts(#[trigger] sets[i].part_ids@)
    &&& forall|i: int, p: int|
        0 <= i < sets.len() && 0 <= p < sets[i].part_ids@.len() ==> has_member(
            items,
            #[trigger] sets[i].part_ids@[p]@,
            sets[i].id@,
        )
    &&& forall|j: int| 0 <= j < items.len() ==> set_lists(sets, #[trigger] items[j].set_id@, items[j].id@)
}

/// Whether two character vectors are equal.
fn same_chars(a: &Vec<char>, b: &Vec<char>) -> (r: bool)
    ensures
        r == (a@ == b@),
{
    if a.len() != b.len() {
        return false;
    }
    let mut i: usize = 0;
    while i < a.len()
        invariant
            a@.len() == b@.len(),
            i <= a@.len(),
            forall|j: int| 0 <= j < i ==> a@[j] == b@[j],
        decreases a@.len() - i,
    {
        if a[i] != b[i] {
            return false;
        }
        i = i + 1;
    }
    assert(a@ =~= b@);
    true
}

/// The characters of each string.
fn char_rows(v: &Vec<String>) -> (r: Vec<Vec<char>>)
    ensures
        r@.len() == v@.len(),
        forall|k: int| 0 <= k < v@.len() ==> #[trigger] r@[k]@ == v@[k]@,
{
    let mut r: Vec<Vec<char>> = Vec::new();
    let mut i: usize = 0;
    while i < v.len()
        invariant
            i <= v@.len(),
            r@.len() == i,
            forall|k: int| 0 <= k < i ==> #[trigger] r@[k]@ == v@[k]@,
        decreases v@.len() - i,
    {
        r.push(chars_of(v[i].as_str()));
        i = i + 1;
    }
    r
}

/// Whether the rows are pairwise different.
fn rows_distinct(v: &Vec<Vec<char>>) -> (r: bool)
    ensures
        r == forall|a: int, b: int| 0 <= a < b < v@.len() ==> #[trigger] v@[a]@ != #[trigger] v@[b]@,
{
    let mut b: usize = 0;
    while b < v.len()
        invariant
            b <= v@.len(),
            forall|x: int, y: int| 0 <= x < y < b ==> #[trigger] v@[x]@ != #[trigger] v@[y]@,
        decreases v@.len() - b,
    {
        let mut a: usize = 0;
        while a < b
            invariant
                a <= b < v@.len(),
                forall|x: int, y: int| 0 <= x < y < b ==> #[trigger] v@[x]@ != #[trigger] v@[y]@,
                forall|x: int| 0 <= x < a ==> #[trigger] v@[x]@ != v@[b as int]@,
            decreases b - a,
        {
            if same_chars(&v[a], &v[b]) {
                return false;
            }
            a = a + 1;
        }
        b = b + 1;
    }
    true
}

impl Catalog {
    /// Whether the sets' part lists and the items' sets agree.
    pub fn parts_match(&self) -> (r: bool)
        ensures
            r == parts_match_items(self.item_seq(), self.set_seq()),
    {
        let items = &self.items;
        let sets = &self.sets;
        assert(self.item_seq() == items@ && self.set_seq() == sets@);
        let mut item_ids: Vec<Vec<char>> = Vec::new();
        let mut item_sets: Vec<Vec<char>> = Vec::new();
        let mut j: usize = 0;
        while j < items.len()
            invariant
                j <= items@.len(),
                item_ids@.len() == j,
                item_sets@.len() == j,
                forall|k: int| 0 <= k < j ==> #[trigger] item_ids@[k]@ == items@[k].id@,
                forall|k: int| 0 <= k < j ==> #[trigger] item_sets@[k]@ == items@[k].set_id@,
            decreases items@.len() - j,
        {
            item_ids.push(chars_of(items[j].id.as_str()));
            item_sets.push(chars_of(items[j].set_id.as_str()));
            j = j + 1;
        }
        let mut set_ids: Vec<Vec<char>> = Vec::new();
        let mut set_parts: Vec<Vec<Vec<char>>> = Vec::new();
        let mut i: usize = 0;
        while i < sets.len()
            invariant
                i <= sets@.len(),
                set_ids@.len() == i,
                set_parts@.len() == i,
                forall|k: int| 0 <= k < i ==> #[trigger] set_ids@[k]@ == sets@[k].id@,
                forall|k: int|
                    0 <= k < i ==> (#[trigger] set_parts@[k])@.len() == sets@[k].part_ids@.len(),
                forall|k: int, p: int|
                    0 <= k < i && 0 <= p < sets@[k].part_ids@.len() ==> #[trigger] set_parts@[k]@[p]@
                        == sets@[k].part_ids@[p]@,
            decreases sets@.len() - i,
        {
            set_ids.push(chars_of(sets[i].id.as_str()));
            set_parts.push(char_rows(&sets[i].part_ids));
            i = i + 1;
        }
        // every set lists distinct parts, each an item of that set
        let mut i: usize = 0;
        while i < sets.len()
            invariant
                self.item_seq() == items@,
                self.set_seq() == sets@,
                i <= sets@.len(),
                item_ids@.len() == items@.len(),
                item_sets@.len() == items@.len(),
                forall|k: int| 0 <= k < items@.len() ==> #[trigger] item_ids@[k]@ == items@[k].id@,
                forall|k: int| 0 <= k < items@.len() ==> #[trigger] item_sets@[k]@ == items@[k].set_id@,
                set_ids@.len() == sets@.len(),
                set_parts@.len() == sets@.len(),
                forall|k: int| 0 <= k < sets@.len() ==> #[trigger] set_ids@[k]@ == sets@[k].id@,
                forall|k: int|
                    0 <= k < sets@.len() ==> (#[trigger] set_parts@[k])@.len()
                        == sets@[k].part_ids@.len(),
                forall|k: int, p: int|
                    0 <= k < sets@.len() && 0 <= p < sets@[k].part_ids@.len()
                        ==> #[trigger] set_parts@[k]@[p]@ == sets@[k].part_ids@[p]@,
                forall|k: int| 0 <= k < i ==> distinct_texts(#[trigger] sets@[k].part_ids@),
                forall|k: int, p: int|
                    0 <= k < i && 0 <= p < sets@[k].part_ids@.len() ==> has_member(
                        items@,
                        #[trigger] sets@[k].part_ids@[p]@,
                        sets@[k].id@,
                    ),
            decreases sets@.len() - i,
        {
            let parts = &set_parts[i];
            let distinct = rows_distinct(parts);
            if !distinct {
                proof {
                    let ps = sets@[i as int].part_ids@;
                    let (a, b) = choose|a: int, b: int|
                        0 <= a < b < parts@.len() && #[trigger] parts@[a]@ == #[trigger] parts@[b]@;
                    assert(set_parts@[i as int]@[a]@ == ps[a]@);
                    assert(set_parts@[i as int]@[b]@ == ps[b]@);
                    assert(!distinct_texts(ps));
                    assert(!parts_match_items(items@, sets@));
                }
                return false;
            }
            assert(distinct_texts(sets@[i as int].part_ids@)) by {
                let ps = sets@[i as int].part_ids@;
                assert forall|a: int, b: int| 0 <= a < b < ps.len() implies #[trigger] ps[a]@
                    != #[trigger] ps[b]@ by {
                    assert(set_parts@[i as int]@[a]@ == ps[a]@);
                    assert(set_parts@[i as int]@[b]@ == ps[b]@);
                    assert(parts@[a]@ != parts@[b]@);
                }
            }
            let mut p: usize = 0;
            while p < parts.len()
                invariant
                    self.item_seq() == items@,
                    self.set_seq() == sets@,
                    i < sets@.len(),
                    *parts == set_parts@[i as int],
                    p <= parts@.len(),
                    set_ids@.len() == sets@.len(),
                    parts@.len() == sets@[i as int].part_ids@.len(),
                    forall|q: int|
                        0 <= q < parts@.len() ==> #[trigger] parts@[q]@ == sets@[i as int].part_ids@[q]@,
                    set_ids@[i as int]@ == sets@[i as int].id@,
                    item_ids@.len() == items@.len(),
                    item_sets@.len() == items@.len(),
                    forall|k: int| 0 <= k < items@.len() ==> #[trigger] item_ids@[k]@ == items@[k].id@,
                    forall|k: int|
                        0 <= k < items@.len() ==> #[trigger] item_sets@[k]@ == items@[k].set_id@,
                    forall|q: int|
                        0 <= q < p ==> has_member(
                            items@,
                            #[trigger] sets@[i as int].part_ids@[q]@,
                            sets@[i as int].id@,
                        ),
                decreases parts@.len() - p,
            {
                assert(set_parts@[i as int]@[p as int]@ == sets@[i as int].part_ids@[p as int]@);
                let mut j: usize = 0;
                let mut found = false;
                while j < item_ids.len() && !found
                    invariant
                        j <= item_ids@.len(),
                        i < sets@.len(),
                        p < parts@.len(),
                        set_ids@.len() == sets@.len(),
                        item_ids@.len() == items@.len(),
                        item_sets@.len() == items@.len(),
                        forall|k: int| 0 <= k < items@.len() ==> #[trigger] item_ids@[k]@ == items@[k].id@,
                        forall|k: int|
                            0 <= k < items@.len() ==> #[trigger] item_sets@[k]@ == items@[k].set_id@,
                        found ==> has_member(items@, parts@[p as int]@, set_ids@[i as int]@),
                        !found ==> forall|k: int|
                            0 <= k < j ==> !(#[trigger] items@[k].id@ == parts@[p as int]@
                                && items@[k].set_id@ == set_ids@[i as int]@),
                    decreases item_ids@.len() - j + (if found {
                        0int
                    } else {
                        1int
                    }),
                {
                    if same_chars(&item_ids[j], &parts[p]) && same_chars(&item_sets[j], &set_ids[i]) {
                        assert(items@[j as int].id@ == parts@[p as int]@);
                        found = true;
                    } else {
                        j = j + 1;
                    }
                }
                if !found {
                    assert(!has_member(items@, parts@[p as int]@, set_ids@[i as int]@));
                    assert(!has_member(
                        items@,
                        sets@[i as int].part_ids@[p as int]@,
                        sets@[i as int].id@,
                    ));
                    assert(!parts_match_items(items@, sets@));
                    return false;
                }
                p = p + 1;
            }
            i = i + 1;
        }
        // every item is listed by its set
        let mut j: usize = 0;
        while j < items.len()
            invariant
                self.item_seq() == items@,
                self.set_seq() == sets@,
                j <= items@.len(),
                item_ids@.len() == items@.len(),
                item_sets@.len() == items@.len(),
                forall|k: int| 0 <= k < items@.len() ==> #[trigger] item_ids@[k]@ == items@[k].id@,
                forall|k: int| 0 <= k < items@.len() ==> #[trigger] item_sets@[k]@ == items@[k].set_id@,
                set_ids@.len() == sets@.len(),
                set_parts@.len() == sets@.len(),
                forall|k: int| 0 <= k < sets@.len() ==> #[trigger] set_ids@[k]@ == sets@[k].id@,
                forall|k: int|
                    0 <= k < sets@.len() ==> (#[trigger] set_parts@[k])@.len()
                        == sets@[k].part_ids@.len(),
                forall|k: int, p: int|
                    0 <= k < sets@.len() && 0 <= p < sets@[k].part_ids@.len()
                        ==> #[trigger] set_parts@[k]@[p]@ == sets@[k].part_ids@[p]@,
                forall|i: int| 0 <= i < sets@.len() ==> distinct_texts(#[trigger] sets@[i].part_ids@),
                forall|i: int, p: int|
                    0 <= i < sets@.len() && 0 <= p < sets@[i].part_ids@.len() ==> has_member(
                        items@,
                        #[trigger] sets@[i].part_ids@[p]@,
                        sets@[i].id@,
                    ),
                forall|k: int| 0 <= k < j ==> set_lists(sets@, #[trigger] items@[k].set_id@, items@[k].id@),
            decreases items@.len() - j,
        {
            let mut listed = false;
            let mut i: usize = 0;
            while i < set_ids.len() && !listed
                invariant
                    i <= set_ids@.len(),
                    j < items@.len(),
                    item_ids@.len() == items@.len(),
                    item_sets@.len() == items@.len(),
                    set_ids@.len() == sets@.len(),
                    set_parts@.len() == sets@.len(),
                    forall|k: int| 0 <= k < sets@.len() ==> #[trigger] set_ids@[k]@ == sets@[k].id@,
                    forall|k: int|
                        0 <= k < sets@.len() ==> (#[trigger] set_parts@[k])@.len()
                            == sets@[k].part_ids@.len(),
                    forall|k: int, p: int|
                        0 <= k < sets@.len() && 0 <= p < sets@[k].part_ids@.len()
                            ==> #[trigger] set_parts@[k]@[p]@ == sets@[k].part_ids@[p]@,
                    item_ids@[j as int]@ == items@[j as int].id@,
                    item_sets@[j as int]@ == items@[j as int].set_id@,
                    listed ==> set_lists(sets@, items@[j as int].set_id@, items@[j as int].id@),
                    !listed ==> forall|k: int, p: int|
                        0 <= k < i && 0 <= p < sets@[k].part_ids@.len() ==> !(sets@[k].id@
                            == items@[j as int].set_id@ && #[trigger] sets@[k].part_ids@[p]@
                            == items@[j as int].id@),
                decreases set_ids@.len() - i + (if listed {
                    0int
                } else {
                    1int
                }),
            {
                if same_chars(&set_ids[i], &item_sets[j]) {
                    let parts = &set_parts[i];
                    let mut p: usize = 0;
                    while p < parts.len() && !listed
                        invariant
                            i < sets@.len(),
                            *parts == set_parts@[i as int],
                            parts@.len() == sets@[i as int].part_ids@.len(),
                            forall|q: int|
                                0 <= q < parts@.len() ==> #[trigger] parts@[q]@
                                    == sets@[i as int].part_ids@[q]@,
                            sets@[i as int].id@ == items@[j as int].set_id@,
                            j < items@.len(),
                            item_ids@.len() == items@.len(),
                            item_ids@[j as int]@ == items@[j as int].id@,
                            p <= parts@.len(),
                            listed ==> set_lists(sets@, items@[j as int].set_id@, items@[j as int].id@),
                            !listed ==> forall|q: int|
                                0 <= q < p ==> !(#[trigger] sets@[i as int].part_ids@[q]@
                                    == items@[j as int].id@),
                        decreases parts@.len() - p + (if listed {
                            0int
                        } else {
                            1int
                        }),
                    {
                        if same_chars(&parts[p], &item_ids[j]) {
                            assert(sets@[i as int].part_ids@[p as int]@ == items@[j as int].id@);
                            listed = true;
                        } else {
                            p = p + 1;
                        }
                    }
                }
                if !listed {
                    i = i + 1;
                }
            }
            if !listed {
                assert(!set_lists(sets@, items@[j as int].set_id@, items@[j as int].id@)) by {
                    assert forall|k: int, p: int|
                        0 <= k < sets@.len() && 0 <= p < sets@[k].part_ids@.len() implies !(sets@[k].id@
                        == items@[j as int].set_id@ && #[trigger] sets@[k].part_ids@[p]@
                        == items@[j as int].id@) by {}
                }
                assert(!parts_match_items(items@, sets@));
                return false;
            }
            j = j + 1;
        }
        true
    }
}

/// Builds the catalog from the item-detail responses, in order. `None` when
/// a response has no root member, or when the sets' part lists and the
/// items' sets disagree (one set described twice with different parts, a
/// part listed twice, or a part claimed by two sets).
pub fn catalog_from_responses(responses: &Vec<Vec<SetMember>>) -> (r: Option<Catalog>)
    ensures
        (exists|i: int| 0 <= i < responses@.len() && !has_root(#[trigger] responses@[i]@)) ==> r is None,
        match r {
            Some(c) => c.wf() && parts_match_items(c.item_seq(), c.set_seq()) && exists|
                details: Seq<(ItemSet, Vec<Item>)>,
            |
                responses_describe(responses@, details) && c.item_seq() == catalog_items(details)
                    && c.set_seq() == catalog_sets(details),
            None => (exists|i: int| 0 <= i < responses@.len() && !has_root(#[trigger] responses@[i]@))
                || exists|details: Seq<(ItemSet, Vec<Item>)>|
                responses_describe(responses@, details) && !parts_match_items(
                    catalog_items(details),
                    catalog_sets(details),
                ),
        },
{
    let mut details: Vec<(ItemSet, Vec<Item>)> = Vec::new();
    let mut i: usize = 0;
    while i < responses.len()
        invariant
            i <= responses@.len(),
            responses_describe(responses@.take(i as int), details@),
            forall|j: int| 0 <= j < i ==> has_root(#[trigger] responses@[j]@),
        decreases responses@.len() - i,
    {
        match build_set(&responses[i]) {
            Some(d) => {
                let ghost before = details@;
                details.push(d);
                assert forall|j: int| 0 <= j < i + 1 implies #[trigger] describes(
                    responses@.take(i + 1)[j]@,
                    details@[j],
                ) by {
                    if j < i {
                        assert(responses@.take(i + 1)[j] == responses@.take(i as int)[j]);
                        assert(details@[j] == before[j]);
                    }
                }
            },
            None => {
                return None;
            },
        }
        i = i + 1;
    }
    assert(responses@.take(i as int) =~= responses@);
    let ghost all = details@;
    let c = Catalog::from_details(details);
    if c.parts_match() {
        Some(c)
    } else {
        assert(responses_describe(responses@, all));
        None
    }
}

/// The relics that relic-detail responses describe, in order, skipping
/// responses that describe none.
pub open spec fn relics_of_responses(responses: Seq<Vec<SetMember>>) -> Seq<Relic>
    decreases responses.len(),
{
    if responses.len() == 0 {
        Seq::empty()
    } else {
        let rest = relics_of_responses(responses.drop_last());
        match relic_of_members(responses.last()@) {
            Some(relic) => rest.push(relic),
            None => rest,
        }
    }
}

/// The relics that relic-detail responses describe, in order.
pub fn relics_from_responses(responses: &Vec<Vec<SetMember>>) -> (r: Vec<Relic>)
    ensures
        r@ == relics_of_responses(responses@),
{
    let mut out: Vec<Relic> = Vec::new();
    let mut i: usize = 0;
    while i < responses.len()
        invariant
            i <= responses@.len(),
            out@ == relics_of_responses(responses@.take(i as int)),
        decreases responses@.len() - i,
    {
        assert(responses@.take(i + 1).drop_last() =~= responses@.take(i as int));
        match relic_from_members(&responses[i]) {
            Some(relic) => out.push(relic),
            None => {},
        }
        i = i + 1;
    }
    assert(responses@.take(i as int) =~= responses@);
    out
}

/// The sets of a catalog built from item-detail responses, in order.
pub open spec fn catalog_sets(details: Seq<(ItemSet, Vec<Item>)>) -> Seq<ItemSet>
    decreases details.len(),
{
    if details.len() == 0 {
        Seq::empty()
    } else {
        put_keyed(catalog_sets(details.drop_last()), details.last().0, set_key())
    }
}

/// The items of a catalog built from item-detail responses, in order.
pub open spec fn catalog_items(details: Seq<(ItemSet, Vec<Item>)>) -> Seq<Item>
    decreases details.len(),
{
    if details.len() == 0 {
        Seq::empty()
    } else {
        put_all_keyed(catalog_items(details.drop_last()), details.last().1@, item_key())
    }
}

} // verus!
