//! The mapping from product code to session, held as a list of entries with
//! distinct product codes.

use crate::session::{SessionView, TradeSession};
use vstd::prelude::*;
use vstd::string::StringExecFns;

verus! {

/// The texts of a list of strings.
pub open spec fn texts_of(strings: Seq<String>) -> Seq<Seq<char>> {
    strings.map_values(|s: String| s@)
}

/// No text occurs twice.
pub open spec fn distinct(keys: Seq<Seq<char>>) -> bool {
    forall|i: int, j: int| 0 <= i < j < keys.len() ==> keys[i] != keys[j]
}

/// The map that the first `n` pairs of keys and values make, a later pair
/// replacing an earlier one of the same key.
pub open spec fn map_of(keys: Seq<Seq<char>>, values: Seq<SessionView>, n: int) -> Map<
    Seq<char>,
    SessionView,
>
    decreases n,
{
    if n <= 0 {
        Map::empty()
    } else {
        map_of(keys, values, n - 1).insert(keys[n - 1], values[n - 1])
    }
}

/// The map of the first `n` pairs holds the keys among them and no others,
/// and is finite.
pub proof fn lemma_map_of_dom(keys: Seq<Seq<char>>, values: Seq<SessionView>, n: int)
    requires
        0 <= n <= keys.len(),
    ensures
        forall|q: Seq<char>| #[trigger]
            map_of(keys, values, n).contains_key(q) <==> exists|j: int|
                0 <= j < n && keys[j] == q,
        map_of(keys, values, n).dom().finite(),
    decreases n,
{
    if n > 0 {
        lemma_map_of_dom(keys, values, n - 1);
        let before = map_of(keys, values, n - 1);
        assert forall|q: Seq<char>| #[trigger]
            map_of(keys, values, n).contains_key(q) <==> exists|j: int|
                0 <= j < n && keys[j] == q by {
            if before.contains_key(q) {
                let j = choose|j: int| 0 <= j < n - 1 && keys[j] == q;
                assert(0 <= j < n && keys[j] == q);
            }
            if q == keys[n - 1] {
                assert(0 <= n - 1 < n && keys[n - 1] == q);
            }
        }
    }
}

/// Where the keys are distinct, the map of the first `n` pairs gives each of
/// these keys its own value, and has `n` keys.
pub proof fn lemma_map_of_values(keys: Seq<Seq<char>>, values: Seq<SessionView>, n: int)
    requires
        0 <= n <= keys.len(),
        distinct(keys),
    ensures
        forall|j: int|
            0 <= j < n ==> map_of(keys, values, n).contains_key(#[trigger] keys[j]) && map_of(
                keys,
                values,
                n,
            )[keys[j]] == values[j],
        map_of(keys, values, n).dom().len() == n,
    decreases n,
{
    if n > 0 {
        lemma_map_of_values(keys, values, n - 1);
        lemma_map_of_dom(keys, values, n - 1);
        let before = map_of(keys, values, n - 1);
        let last = keys[n - 1];
        if before.contains_key(last) {
            let j = choose|j: int| 0 <= j < n - 1 && keys[j] == last;
            assert(keys[j] != keys[n - 1]);
        }
        assert forall|j: int| 0 <= j < n implies map_of(keys, values, n).contains_key(
            #[trigger] keys[j],
        ) && map_of(keys, values, n)[keys[j]] == values[j] by {
            if j < n - 1 {
                assert(keys[j] != keys[n - 1]);
            }
        }
    }
}

/// One product with its session.
#[derive(Debug)]
struct Entry {
    product: String,
    session: TradeSession,
}

/// The product codes of a list of entries.
spec fn keys_of(entries: Seq<Entry>) -> Seq<Seq<char>> {
    entries.map_values(|e: Entry| e.product@)
}

/// The sessions of a list of entries.
spec fn values_of(entries: Seq<Entry>) -> Seq<SessionView> {
    entries.map_values(|e: Entry| e.session@)
}

/// Product codes with their sessions, each code once.
#[derive(Debug)]
pub struct SessionMap {
    entries: Vec<Entry>,
}

impl View for SessionMap {
    type V = Map<Seq<char>, SessionView>;

    closed spec fn view(&self) -> Map<Seq<char>, SessionView> {
        map_of(keys_of(self.entries@), values_of(self.entries@), self.entries@.len() as int)
    }
}

impl SessionMap {
    #[verifier::type_invariant]
    pub closed spec fn inv(self) -> bool {
        distinct(keys_of(self.entries@))
    }

    /// The mapping is finite.
    pub proof fn lemma_finite(self)
        ensures
            self@.dom().finite(),
    {
        lemma_map_of_dom(
            keys_of(self.entries@),
            values_of(self.entries@),
            self.entries@.len() as int,
        );
    }

    /// The empty mapping.
    pub fn new() -> (res: SessionMap)
        ensures
            res@ == Map::<Seq<char>, SessionView>::empty(),
    {
        SessionMap { entries: Vec::new() }
    }

    /// How many products are held.
    pub fn len(&self) -> (res: usize)
        ensures
            res == self@.dom().len(),
    {
        proof {
            use_type_invariant(self);
            lemma_map_of_values(
                keys_of(self.entries@),
                values_of(self.entries@),
                self.entries@.len() as int,
            );
        }
        self.entries.len()
    }

    /// Where in the list `product` stands, if it is held.
    fn position(&self, product: &str) -> (res: Option<usize>)
        ensures
            match res {
                Some(i) => i < self.entries@.len() && self.entries@[i as int].product@ == product@,
                None => forall|j: int|
                    0 <= j < self.entries@.len() ==> (#[trigger] self.entries@[j]).product@
                        != product@,
            },
    {
        let wanted: String = String::from_str(product);
        let mut i: usize = 0;
        while i < self.entries.len()
            invariant
                i <= self.entries.len(),
                wanted@ == product@,
                forall|j: int| 0 <= j < i ==> (#[trigger] self.entries@[j]).product@ != product@,
            decreases self.entries.len() - i,
        {
            if self.entries[i].product == wanted {
                return Some(i);
            }
            i += 1;
        }
        None
    }

    /// Whether `product` is held.
    pub fn contains_key(&self, product: &str) -> (res: bool)
        ensures
            res == self@.contains_key(product@),
    {
        let found = self.position(product);
        proof {
            use_type_invariant(self);
            let keys = keys_of(self.entries@);
            lemma_map_of_dom(keys, values_of(self.entries@), keys.len() as int);
            match found {
                Some(i) => {
                    assert(keys[i as int] == product@);
                },
                None => {
                    if self@.contains_key(product@) {
                        let j = choose|j: int| 0 <= j < keys.len() && keys[j] == product@;
                        assert(self.entries@[j].product@ != product@);
                    }
                },
            }
        }
        found.is_some()
    }

    /// The session of `product`, if it is held.
    pub fn get(&self, product: &str) -> (res: Option<&TradeSession>)
        ensures
            match res {
                Some(session) => self@.contains_key(product@) && self@[product@] == session@,
                None => !self@.contains_key(product@),
            },
    {
        let found = self.position(product);
        proof {
            use_type_invariant(self);
            let keys = keys_of(self.entries@);
            lemma_map_of_dom(keys, values_of(self.entries@), keys.len() as int);
            lemma_map_of_values(keys, values_of(self.entries@), keys.len() as int);
            match found {
                Some(i) => {
                    assert(keys[i as int] == product@);
                },
                None => {
                    if self@.contains_key(product@) {
                        let j = choose|j: int| 0 <= j < keys.len() && keys[j] == product@;
                        assert(self.entries@[j].product@ != product@);
                    }
                },
            }
        }
        match found {
            Some(i) => Some(&self.entries[i].session),
            None => None,
        }
    }

    /// Puts `session` under `product`, in place of what was held under it.
    pub fn insert(&mut self, product: String, session: TradeSession)
        ensures
            final(self)@ == old(self)@.insert(product@, session@),
    {
        let found = self.position(product.as_str());
        proof {
            use_type_invariant(&*self);
        }
        let ghost keys = keys_of(self.entries@);
        let ghost values = values_of(self.entries@);
        let mut entries: Vec<Entry> = Vec::new();
        assert(distinct(keys_of(entries@)));
        core::mem::swap(&mut self.entries, &mut entries);
        match found {
            Some(i) => {
                entries.set(i, Entry { product, session });
                proof {
                    let after = values_of(entries@);
                    assert(keys_of(entries@) =~= keys);
                    assert(after =~= values.update(i as int, session@));
                    lemma_map_of_dom(keys, values, keys.len() as int);
                    lemma_map_of_values(keys, values, keys.len() as int);
                    lemma_map_of_dom(keys, after, keys.len() as int);
                    lemma_map_of_values(keys, after, keys.len() as int);
                    let old_map = map_of(keys, values, keys.len() as int);
                    let new_map = map_of(keys, after, keys.len() as int);
                    assert(keys[i as int] == product@);
                    assert forall|q: Seq<char>| new_map.contains_key(q) implies #[trigger] new_map[q]
                        == old_map.insert(product@, session@)[q] by {
                        let j = choose|j: int| 0 <= j < keys.len() && keys[j] == q;
                        assert(new_map[keys[j]] == after[j]);
                        assert(old_map[keys[j]] == values[j]);
                    }
                    assert(new_map =~= old_map.insert(product@, session@));
                }
            },
            None => {
                entries.push(Entry { product, session });
                proof {
                    let new_keys = keys_of(entries@);
                    let new_values = values_of(entries@);
                    assert(new_keys =~= keys.push(product@));
                    assert(new_values =~= values.push(session@));
                    lemma_map_of_prefix(new_keys, new_values, keys, values, keys.len() as int);
                    assert forall|i: int, j: int| 0 <= i < j < new_keys.len() implies new_keys[i]
                        != new_keys[j] by {
                        if j < keys.len() {
                            assert(keys[i] != keys[j]);
                        } else {
                            assert(old(self).entries@[i].product@ != product@);
                        }
                    }
                }
            },
        }
        self.entries = entries;
    }

    /// The product codes, each once, in the order in which they came.
    pub fn keys(&self) -> (res: Vec<String>)
        ensures
            texts_of(res@).to_set() == self@.dom(),
            distinct(texts_of(res@)),
            res@.len() == self@.dom().len(),
    {
        proof {
            use_type_invariant(self);
        }
        let mut res: Vec<String> = Vec::new();
        let mut i: usize = 0;
        while i < self.entries.len()
            invariant
                i <= self.entries.len(),
                texts_of(res@) == keys_of(self.entries@).take(i as int),
            decreases self.entries.len() - i,
        {
            let ghost before = texts_of(res@);
            res.push(self.entries[i].product.clone());
            assert(texts_of(res@) =~= before.push(self.entries@[i as int].product@));
            assert(keys_of(self.entries@).take(i + 1) =~= keys_of(self.entries@).take(
                i as int,
            ).push(self.entries@[i as int].product@));
            i += 1;
        }
        proof {
            let keys = keys_of(self.entries@);
            assert(keys.take(keys.len() as int) =~= keys);
            lemma_map_of_dom(keys, values_of(self.entries@), keys.len() as int);
            lemma_map_of_values(keys, values_of(self.entries@), keys.len() as int);
            assert forall|q: Seq<char>| keys.to_set().contains(q) <==> self@.dom().contains(q) by {
                if keys.contains(q) {
                    let j = choose|j: int| 0 <= j < keys.len() && keys[j] == q;
                    assert(0 <= j < keys.len() && keys[j] == q);
                }
                if self@.contains_key(q) {
                    let j = choose|j: int| 0 <= j < keys.len() && keys[j] == q;
                    assert(keys[j] == q);
                }
            }
            assert(keys.to_set() =~= self@.dom());
        }
        res
    }

    /// Puts every entry of `other` into this mapping, in place of what was
    /// held under the same product. Products that `other` lacks stay.
    pub fn extend(&mut self, other: &SessionMap)
        ensures
            final(self)@ == old(self)@.union_prefer_right(other@),
    {
        proof {
            use_type_invariant(other);
        }
        let ghost keys = keys_of(other.entries@);
        let ghost values = values_of(other.entries@);
        let mut i: usize = 0;
        assert(self@ =~= old(self)@.union_prefer_right(map_of(keys, values, 0)));
        while i < other.entries.len()
            invariant
                i <= other.entries.len(),
                keys == keys_of(other.entries@),
                values == values_of(other.entries@),
                self@ == old(self)@.union_prefer_right(map_of(keys, values, i as int)),
            decreases other.entries.len() - i,
        {
            self.insert(other.entries[i].product.clone(), other.entries[i].session.clone());
            assert(self@ =~= old(self)@.union_prefer_right(map_of(keys, values, i + 1)));
            i += 1;
        }
    }
}

/// The map of the first `n` pairs looks at these pairs only.
pub proof fn lemma_map_of_prefix(
    keys: Seq<Seq<char>>,
    values: Seq<SessionView>,
    keys2: Seq<Seq<char>>,
    values2: Seq<SessionView>,
    n: int,
)
    requires
        0 <= n <= keys.len(),
        n <= keys2.len(),
        n <= values.len(),
        n <= values2.len(),
        forall|j: int| 0 <= j < n ==> keys[j] == keys2[j] && values[j] == values2[j],
    ensures
        map_of(keys, values, n) == map_of(keys2, values2, n),
    decreases n,
{
    if n > 0 {
        lemma_map_of_prefix(keys, values, keys2, values2, n - 1);
    }
}

} // verus!
