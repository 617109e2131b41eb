//! Storage held in memory.
use vstd::prelude::*;

use vstd::string::StringExecFns;

verus! {

/// <https://developer.mozilla.org/en-US/docs/Web/API/Storage>
/// This should match the JS API in behavior
pub trait Storage {
    /// The items stored, by key.
    spec fn items(&self) -> Map<Seq<char>, Seq<char>>;

    /// The keys in the order in which `key` gives them.
    spec fn key_order(&self) -> Seq<Seq<char>>;

    /// The number of items.
    fn length(&self) -> (r: u32)
        requires
            self.items().len() <= u32::MAX,
        ensures
            r == self.items().len(),
    ;

    /// The key at a position of the key order, `None` past its end. The key order lists
    /// every key once.
    fn key(&self, index: u32) -> (r: Option<&str>)
        ensures
            self.key_order().no_duplicates(),
            self.key_order().to_set() == self.items().dom(),
            match r {
                Some(k) => index < self.key_order().len() && k@ == self.key_order()[index as int],
                None => index >= self.key_order().len(),
            },
    ;

    /// The value stored under a key.
    fn get_item(&self, key: &str) -> (r: Option<&str>)
        ensures
            match r {
                Some(v) => self.items().contains_key(key@) && v@ == self.items()[key@],
                None => !self.items().contains_key(key@),
            },
    ;

    /// Stores a value under a key, replacing any value stored there.
    fn set_item(&mut self, key: &str, value: &str)
        ensures
            final(self).items() == old(self).items().insert(key@, value@),
    ;

    /// Removes the item stored under a key, if any.
    fn remove_item(&mut self, key: &str)
        ensures
            final(self).items() == old(self).items().remove(key@),
    ;

    /// Removes every item.
    fn clear(&mut self)
        ensures
            final(self).items() == Map::<Seq<char>, Seq<char>>::empty(),
    ;
}

/// Storage held in memory: the items in the order in which their keys were first stored.
pub struct InMemoryStorage {
    contents: Vec<(String, String)>,
}

/// The keys of pairs.
pub open spec fn pair_keys(s: Seq<(String, String)>) -> Seq<Seq<char>> {
    s.map_values(|p: (String, String)| p.0@)
}

/// The map that pairs with distinct keys stand for.
pub open spec fn pairs_map(s: Seq<(String, String)>) -> Map<Seq<char>, Seq<char>> {
    Map::new(
        |k: Seq<char>| pair_keys(s).contains(k),
        |k: Seq<char>| s[pair_keys(s).index_of(k)].1@,
    )
}

impl InMemoryStorage {
    #[verifier::type_invariant]
    spec fn keys_distinct(&self) -> bool {
        pair_keys(self.contents@).no_duplicates()
    }

    /// An empty storage.
    pub fn new() -> (res: InMemoryStorage)
        ensures
            res.items() == Map::<Seq<char>, Seq<char>>::empty(),
    {
        let res = InMemoryStorage { contents: Vec::new() };
        assert(res.items() =~= Map::<Seq<char>, Seq<char>>::empty());
        res
    }

    /// The number of items, whatever it is.
    pub fn item_count(&self) -> (r: usize)
        ensures
            r == self.items().len(),
    {
        proof {
            use_type_invariant(self);
            pair_keys(self.contents@).unique_seq_to_set();
            assert(self.items().dom() =~= pair_keys(self.contents@).to_set());
        }
        self.contents.len()
    }

    /// Where `key` is stored.
    fn position(&self, key: &String) -> (r: Option<usize>)
        ensures
            match r {
                Some(i) => i < self.contents@.len() && self.contents@[i as int].0@ == key@,
                None => !pair_keys(self.contents@).contains(key@),
            },
    {
        let n = self.contents.len();
        let mut i: usize = 0;
        while i < n
            invariant
                n == self.contents@.len(),
                i <= n,
                forall|j: int| 0 <= j < i ==> #[trigger] self.contents@[j].0@ != key@,
            decreases n - i,
        {
            if self.contents[i].0 == *key {
                return Some(i);
            }
            i = i + 1;
        }
        proof {
            if pair_keys(self.contents@).contains(key@) {
                let j = choose|j: int| 0 <= j < n && pair_keys(self.contents@)[j] == key@;
                assert(self.contents@[j].0@ == key@);
            }
        }
        None
    }
}

/// With distinct keys, the value of a pair's key is the pair's value.
proof fn lemma_pairs_map_at(s: Seq<(String, String)>, i: int)
    requires
        pair_keys(s).no_duplicates(),
        0 <= i < s.len(),
    ensures
        pairs_map(s).contains_key(s[i].0@),
        pairs_map(s)[s[i].0@] == s[i].1@,
{
    let ks = pair_keys(s);
    assert(ks[i] == s[i].0@);
    assert(ks.contains(s[i].0@));
    let j = ks.index_of(s[i].0@);
    assert(ks[j] == ks[i]);
}

impl Storage for InMemoryStorage {
    closed spec fn items(&self) -> Map<Seq<char>, Seq<char>> {
        pairs_map(self.contents@)
    }

    closed spec fn key_order(&self) -> Seq<Seq<char>> {
        pair_keys(self.contents@)
    }

    fn length(&self) -> (r: u32) {
        proof {
            use_type_invariant(self);
            pair_keys(self.contents@).unique_seq_to_set();
            assert(self.items().dom() =~= pair_keys(self.contents@).to_set());
        }
        self.contents.len() as u32
    }

    fn key(&self, index: u32) -> (r: Option<&str>) {
        proof {
            use_type_invariant(self);
            assert(self.items().dom() =~= pair_keys(self.contents@).to_set());
        }
        let i = index as usize;
        if i < self.contents.len() {
            Some(self.contents[i].0.as_str())
        } else {
            None
        }
    }

    fn get_item(&self, key: &str) -> (r: Option<&str>) {
        proof {
            use_type_invariant(self);
        }
        let k = String::from_str(key);
        match self.position(&k) {
            Some(i) => {
                proof {
                    lemma_pairs_map_at(self.contents@, i as int);
                }
                Some(self.contents[i].1.as_str())
            },
            None => None,
        }
    }

    fn set_item(&mut self, key: &str, value: &str) {
        proof {
            use_type_invariant(&*self);
        }
        let k = String::from_str(key);
        let v = String::from_str(value);
        let ghost old_s = self.contents@;
        match self.position(&k) {
            Some(i) => {
                let ghost new_s = old_s.update(i as int, (k, v));
                proof {
                    assert(pair_keys(new_s) =~= pair_keys(old_s));
                    assert(pair_keys(old_s)[i as int] == key@);
                    assert(pairs_map(new_s).dom() =~= pairs_map(old_s).insert(key@, value@).dom());
                    assert forall|kk: Seq<char>| #[trigger] pairs_map(new_s).contains_key(kk) implies pairs_map(new_s)[kk]
                        == pairs_map(old_s).insert(key@, value@)[kk] by {
                        let j = choose|j: int| 0 <= j < new_s.len() && pair_keys(new_s)[j] == kk;
                        lemma_pairs_map_at(new_s, j);
                        if j != i {
                            assert(pair_keys(old_s)[j] != pair_keys(old_s)[i as int]);
                            lemma_pairs_map_at(old_s, j);
                        }
                    }
                    assert(pairs_map(new_s) =~= pairs_map(old_s).insert(key@, value@));
                }
                let mut contents: Vec<(String, String)> = Vec::new();
                std::mem::swap(&mut contents, &mut self.contents);
                contents.set(i, (k, v));
                assert(contents@ == new_s);
                self.contents = contents;
            },
            None => {
                let ghost new_s = old_s.push((k, v));
                proof {
                    assert(pair_keys(new_s) =~= pair_keys(old_s).push(key@));
                    assert(pair_keys(new_s).no_duplicates());
                    assert forall|kk: Seq<char>| #[trigger] pairs_map(new_s).contains_key(kk) == pairs_map(old_s).insert(
                        key@,
                        value@,
                    ).contains_key(kk) by {
                        if kk == key@ {
                            assert(pair_keys(new_s)[old_s.len() as int] == kk);
                        } else if pair_keys(old_s).contains(kk) {
                            let j = choose|j: int| 0 <= j < old_s.len() && pair_keys(old_s)[j] == kk;
                            assert(pair_keys(new_s)[j] == kk);
                        } else if pair_keys(new_s).contains(kk) {
                            let j = choose|j: int| 0 <= j < new_s.len() && pair_keys(new_s)[j] == kk;
                            assert(pair_keys(old_s)[j] == kk);
                        }
                    }
                    assert forall|kk: Seq<char>| #[trigger] pairs_map(new_s).contains_key(kk) implies pairs_map(new_s)[kk]
                        == pairs_map(old_s).insert(key@, value@)[kk] by {
                        let j = choose|j: int| 0 <= j < new_s.len() && pair_keys(new_s)[j] == kk;
                        lemma_pairs_map_at(new_s, j);
                        if j < old_s.len() {
                            lemma_pairs_map_at(old_s, j);
                        }
                    }
                    assert(pairs_map(new_s) =~= pairs_map(old_s).insert(key@, value@));
                }
                let mut contents: Vec<(String, String)> = Vec::new();
                std::mem::swap(&mut contents, &mut self.contents);
                contents.push((k, v));
                assert(contents@ == new_s);
                self.contents = contents;
            },
        }
    }

    fn remove_item(&mut self, key: &str) {
        proof {
            use_type_invariant(&*self);
        }
        let k = String::from_str(key);
        let ghost old_s = self.contents@;
        match self.position(&k) {
            Some(i) => {
                let ghost new_s = old_s.remove(i as int);
                proof {
                    let ok = pair_keys(old_s);
                    let nk = pair_keys(new_s);
                    assert(nk =~= ok.remove(i as int));
                    assert(nk.no_duplicates()) by {
                        assert forall|x: int, y: int| 0 <= x < nk.len() && 0 <= y < nk.len() && x != y implies nk[x] != nk[y] by {
                            let xo = if x < i { x } else { x + 1 };
                            let yo = if y < i { y } else { y + 1 };
                            assert(nk[x] == ok[xo]);
                            assert(nk[y] == ok[yo]);
                        }
                    }
                    assert forall|kk: Seq<char>| #[trigger] pairs_map(new_s).contains_key(kk) == pairs_map(old_s).remove(
                        key@,
                    ).contains_key(kk) by {
                        if nk.contains(kk) {
                            let j = choose|j: int| 0 <= j < new_s.len() && nk[j] == kk;
                            let jo = if j < i { j } else { j + 1 };
                            assert(ok[jo] == kk);
                            assert(jo != i);
                            assert(ok[jo] != ok[i as int]);
                        }
                        if ok.contains(kk) && kk != key@ {
                            let j = choose|j: int| 0 <= j < old_s.len() && ok[j] == kk;
                            assert(j != i);
                            if j < i {
                                assert(nk[j] == kk);
                            } else {
                                assert(nk[j - 1] == kk);
                            }
                        }
                    }
                    assert forall|kk: Seq<char>| #[trigger] pairs_map(new_s).contains_key(kk) implies pairs_map(new_s)[kk]
                        == pairs_map(old_s).remove(key@)[kk] by {
                        let j = choose|j: int| 0 <= j < new_s.len() && nk[j] == kk;
                        lemma_pairs_map_at(new_s, j);
                        if j < i {
                            lemma_pairs_map_at(old_s, j);
                        } else {
                            lemma_pairs_map_at(old_s, j + 1);
                        }
                    }
                    assert(pairs_map(new_s) =~= pairs_map(old_s).remove(key@));
                }
                let mut contents: Vec<(String, String)> = Vec::new();
                std::mem::swap(&mut contents, &mut self.contents);
                contents.remove(i);
                assert(contents@ == new_s);
                self.contents = contents;
            },
            None => {
                assert(pairs_map(old_s) =~= pairs_map(old_s).remove(key@));
            },
        }
    }

    fn clear(&mut self) {
        self.contents = Vec::new();
        assert(self.items() =~= Map::<Seq<char>, Seq<char>>::empty());
    }
}

impl Default for InMemoryStorage {
    /// An empty storage.
    fn default() -> (res: InMemoryStorage)
        ensures
            res.items() == Map::<Seq<char>, Seq<char>>::empty(),
    {
        InMemoryStorage::new()
    }
}

/// The items of a storage are finitely many: one for each of its keys.
proof fn lemma_items_finite(s: InMemoryStorage)
    ensures
        s.items().dom().finite(),
{
    assert(s.items().dom() =~= pair_keys(s.contents@).to_set());
}

/// Storing a value under a key (`set_item` takes a storage from `before` to `after`): the
/// key then reads that value, every other key reads as it did, and the number of items
/// grows by one exactly when the key was not in use.
pub proof fn lemma_set_item(
    before: InMemoryStorage,
    after: InMemoryStorage,
    key: Seq<char>,
    value: Seq<char>,
    other: Seq<char>,
)
    requires
        after.items() == before.items().insert(key, value),
        other != key,
    ensures
        after.items().contains_key(key),
        after.items()[key] == value,
        after.items().contains_key(other) == before.items().contains_key(other),
        before.items().contains_key(other) ==> after.items()[other] == before.items()[other],
        after.items().len() == before.items().len() + (if before.items().contains_key(key) {
            0int
        } else {
            1int
        }),
{
    lemma_items_finite(before);
    if before.items().contains_key(key) {
        assert(before.items().insert(key, value).dom() =~= before.items().dom());
    }
}

/// Removing the item under a key (`remove_item` takes a storage from `before` to `after`):
/// the key then reads nothing, every other key reads as it did, and the number of items
/// shrinks by one exactly when the key was in use.
pub proof fn lemma_remove_item(
    before: InMemoryStorage,
    after: InMemoryStorage,
    key: Seq<char>,
    other: Seq<char>,
)
    requires
        after.items() == before.items().remove(key),
        other != key,
    ensures
        !after.items().contains_key(key),
        after.items().contains_key(other) == before.items().contains_key(other),
        before.items().contains_key(other) ==> after.items()[other] == before.items()[other],
        after.items().len() == before.items().len() - (if before.items().contains_key(key) {
            1int
        } else {
            0int
        }),
{
    lemma_items_finite(before);
    if !before.items().contains_key(key) {
        assert(before.items().remove(key).dom() =~= before.items().dom());
    }
}

/// The key order lists each stored key once, so `key(i)` gives a key exactly for the `i`
/// below the number of items: a key order without repeats that holds exactly the stored
/// keys (as `key` ensures) is as long as there are items.
pub proof fn lemma_key_order_length(s: InMemoryStorage)
    requires
        s.key_order().no_duplicates(),
        s.key_order().to_set() == s.items().dom(),
    ensures
        s.key_order().len() == s.items().len(),
{
    s.key_order().unique_seq_to_set();
}

} // verus!
