use vstd::prelude::*;
use vstd::string::*;

use crate::block::{Price, Prices};
use crate::decimal::Rate;
use crate::errors::FeedError;

verus! {

/// One denomination's entry in a [`DenomMap`].
struct DenomEntry<V> {
    denom: String,
    value: V,
}

/// A map from denomination to a value, backed by a vector holding exactly
/// one entry per denomination. Reading it as a `Map<Seq<char>, V>` is its
/// view; iteration order is the entries' order and carries no meaning.
pub struct DenomMap<V> {
    entries: Vec<DenomEntry<V>>,
}

/// The cached exchange rates: denomination to rate.
pub type ExchangeRateSet = DenomMap<Rate>;

/// The cached supply: denomination to amount.
pub type SupplySet = DenomMap<u64>;

/// The map an entry list denotes: later entries overwrite earlier ones.
spec fn entry_map<V>(s: Seq<DenomEntry<V>>) -> Map<Seq<char>, V>
    decreases s.len(),
{
    if s.len() == 0 {
        Map::empty()
    } else {
        entry_map(s.drop_last()).insert(s.last().denom@, s.last().value)
    }
}

/// A key is in the map exactly when some entry carries it, and the map's
/// domain is finite.
proof fn lemma_entry_map_dom<V>(s: Seq<DenomEntry<V>>)
    ensures
        entry_map(s).dom().finite(),
        forall|k: Seq<char>|
            entry_map(s).contains_key(k) <==> exists|i: int|
                0 <= i < s.len() && #[trigger] s[i].denom@ == k,
    decreases s.len(),
{
    if s.len() > 0 {
        lemma_entry_map_dom(s.drop_last());
        assert forall|k: Seq<char>| entry_map(s).contains_key(k) implies exists|i: int|
            0 <= i < s.len() && #[trigger] s[i].denom@ == k by {
            if k == s.last().denom@ {
                assert(s[s.len() - 1].denom@ == k);
            } else {
                let i = choose|i: int| 0 <= i < s.drop_last().len() && #[trigger] s.drop_last()[
                    i
                ].denom@ == k;
                assert(s[i].denom@ == k);
            }
        }
        assert forall|k: Seq<char>|
            (exists|i: int| 0 <= i < s.len() && #[trigger] s[i].denom@ == k) implies entry_map(
            s,
        ).contains_key(k) by {
            let i = choose|i: int| 0 <= i < s.len() && #[trigger] s[i].denom@ == k;
            if i < s.len() - 1 {
                assert(s.drop_last()[i].denom@ == k);
            }
        }
    }
}

/// With one entry per denomination, the entry count is the domain's size.
proof fn lemma_entry_map_len<V>(s: Seq<DenomEntry<V>>)
    requires
        forall|i: int, j: int| 0 <= i < j < s.len() ==> s[i].denom@ != s[j].denom@,
    ensures
        entry_map(s).dom().len() == s.len(),
    decreases s.len(),
{
    if s.len() > 0 {
        let front = s.drop_last();
        lemma_entry_map_len(front);
        lemma_entry_map_dom(front);
        assert(!entry_map(front).contains_key(s.last().denom@)) by {
            if entry_map(front).contains_key(s.last().denom@) {
                let i = choose|i: int| 0 <= i < front.len() && #[trigger] front[i].denom@
                    == s.last().denom@;
                assert(s[i].denom@ == s[s.len() - 1].denom@);
            }
        }
        vstd::set::axiom_set_insert_len(entry_map(front).dom(), s.last().denom@);
        assert(entry_map(s).dom() =~= entry_map(front).dom().insert(s.last().denom@));
    }
}

/// The value an entry carries is the value its denomination maps to.
proof fn lemma_entry_map_get<V>(s: Seq<DenomEntry<V>>, i: int)
    requires
        forall|p: int, q: int| 0 <= p < q < s.len() ==> s[p].denom@ != s[q].denom@,
        0 <= i < s.len(),
    ensures
        entry_map(s).contains_key(s[i].denom@),
        entry_map(s)[s[i].denom@] == s[i].value,
    decreases s.len(),
{
    if i == s.len() - 1 {
    } else {
        let front = s.drop_last();
        assert(front[i] == s[i]);
        lemma_entry_map_get(front, i);
        assert(s[i].denom@ != s[s.len() - 1].denom@);
    }
}

impl<V> DenomMap<V> {
    #[verifier::type_invariant]
    spec fn wf(self) -> bool {
        forall|i: int, j: int|
            0 <= i < j < self.entries@.len() ==> self.entries@[i].denom@ != self.entries@[
                j
            ].denom@
    }

    /// An empty map.
    pub fn new() -> (r: Self)
        ensures
            r@ == Map::<Seq<char>, V>::empty(),
    {
        DenomMap { entries: Vec::new() }
    }

    /// Puts `value` under `denom`, replacing any earlier value there.
    pub fn insert(&mut self, denom: String, value: V)
        ensures
            final(self)@ == old(self)@.insert(denom@, value),
    {
        proof {
            use_type_invariant(&*self);
        }
        let mut entries: Vec<DenomEntry<V>> = Vec::new();
        core::mem::swap(&mut entries, &mut self.entries);
        let ghost s0 = entries@;
        let n = entries.len();
        let mut i: usize = 0;
        while i < n
            invariant
                i <= n,
                n == entries@.len(),
                entries@ == s0,
                s0 == old(self).entries@,
                forall|p: int, q: int| 0 <= p < q < s0.len() ==> s0[p].denom@ != s0[q].denom@,
                forall|j: int| 0 <= j < i ==> s0[j].denom@ != denom@,
            decreases n - i,
        {
            if text_eq_entry(&entries[i].denom, &denom) {
                entries.set(i, DenomEntry { denom, value });
                proof {
                    lemma_entry_map_update(s0, entries@, i as int);
                    let t = entries@;
                    assert forall|p: int, q: int| 0 <= p < q < t.len() implies t[p].denom@ != t[
                        q
                    ].denom@ by {
                        assert(t[p].denom@ == s0[p].denom@);
                        assert(t[q].denom@ == s0[q].denom@);
                    }
                }
                self.entries = entries;
                return ;
            }
            i += 1;
        }
        entries.push(DenomEntry { denom, value });
        proof {
            let t = entries@;
            assert(t.drop_last() =~= s0);
            assert(t.last().denom@ == denom@);
            assert(entry_map(t) == entry_map(s0).insert(denom@, value));
            assert forall|p: int, q: int| 0 <= p < q < t.len() implies t[p].denom@ != t[
                q
            ].denom@ by {
                if q < t.len() - 1 {
                    assert(t[p].denom@ == s0[p].denom@);
                    assert(t[q].denom@ == s0[q].denom@);
                } else {
                    assert(t[p].denom@ == s0[p].denom@);
                }
            }
        }
        self.entries = entries;
    }

    /// Looks a denomination up.
    pub fn get(&self, denom: &str) -> (r: Option<V>) where V: Copy
        ensures
            r == (if self@.contains_key(denom@) {
                Some(self@[denom@])
            } else {
                None::<V>
            }),
    {
        proof {
            use_type_invariant(&*self);
        }
        let n = self.entries.len();
        let mut i: usize = 0;
        while i < n
            invariant
                i <= n,
                n == self.entries@.len(),
                self.wf(),
                forall|j: int| 0 <= j < i ==> self.entries@[j].denom@ != denom@,
            decreases n - i,
        {
            if crate::textparse::text_eq(&self.entries[i].denom, denom) {
                proof {
                    lemma_entry_map_get(self.entries@, i as int);
                }
                return Some(self.entries[i].value);
            }
            i += 1;
        }
        proof {
            lemma_entry_map_dom(self.entries@);
        }
        None
    }

    /// How many denominations the map holds.
    pub fn len(&self) -> (r: usize)
        ensures
            r == self@.dom().len(),
    {
        proof {
            use_type_invariant(&*self);
            lemma_entry_map_len(self.entries@);
        }
        self.entries.len()
    }

    /// Whether the map holds nothing.
    pub fn is_empty(&self) -> (r: bool)
        ensures
            r == (self@.dom().len() == 0),
    {
        self.len() == 0
    }
}

impl<V> View for DenomMap<V> {
    type V = Map<Seq<char>, V>;

    closed spec fn view(&self) -> Map<Seq<char>, V> {
        entry_map(self.entries@)
    }
}

/// Replacing the one entry that already carries a denomination re-maps that
/// denomination and nothing else.
proof fn lemma_entry_map_update<V>(s: Seq<DenomEntry<V>>, t: Seq<DenomEntry<V>>, i: int)
    requires
        forall|p: int, q: int| 0 <= p < q < s.len() ==> s[p].denom@ != s[q].denom@,
        0 <= i < s.len(),
        t.len() == s.len(),
        t[i].denom@ == s[i].denom@,
        forall|j: int| 0 <= j < s.len() && j != i ==> t[j] == s[j],
    ensures
        entry_map(t) == entry_map(s).insert(t[i].denom@, t[i].value),
    decreases s.len(),
{
    let k = t[i].denom@;
    let v = t[i].value;
    if i == s.len() - 1 {
        assert(t.drop_last() =~= s.drop_last());
        assert(t.last() == t[i]);
        assert(entry_map(t) == entry_map(s.drop_last()).insert(k, v));
        assert(entry_map(s.drop_last()).insert(k, v) =~= entry_map(s.drop_last()).insert(
            s.last().denom@,
            s.last().value,
        ).insert(k, v));
    } else {
        let sf = s.drop_last();
        let tf = t.drop_last();
        assert(sf[i] == s[i]);
        assert(tf[i] == t[i]);
        assert forall|p: int, q: int| 0 <= p < q < sf.len() implies sf[p].denom@ != sf[
            q
        ].denom@ by {
            assert(sf[p] == s[p]);
            assert(sf[q] == s[q]);
        }
        assert forall|j: int| 0 <= j < sf.len() && j != i implies tf[j] == sf[j] by {
            assert(tf[j] == t[j]);
            assert(sf[j] == s[j]);
        }
        lemma_entry_map_update(sf, tf, i);
        assert(t.last() == s.last());
        assert(entry_map(t) == entry_map(sf).insert(k, v).insert(
            s.last().denom@,
            s.last().value,
        ));
        assert(s[i].denom@ != s[s.len() - 1].denom@);
        assert(entry_map(sf).insert(k, v).insert(s.last().denom@, s.last().value)
            =~= entry_map(sf).insert(s.last().denom@, s.last().value).insert(k, v));
    }
}

/// Compares an entry's denomination with a key held as a `String`.
fn text_eq_entry(a: &String, b: &String) -> (r: bool)
    ensures
        r == (a@ == b@),
{
    a.eq(b)
}

/// Replaces the cached rates with freshly extracted ones, keeping the old
/// snapshot when the extraction came back empty: stale data is preferred
/// over no data, and an empty update never changes the visible contents.
pub fn update_rates(cache: &mut ExchangeRateSet, new_rates: ExchangeRateSet)
    ensures
        final(cache)@ == (if new_rates@.dom().len() == 0 {
            old(cache)@
        } else {
            new_rates@
        }),
        new_rates@.dom().len() == 0 ==> final(cache)@ == old(cache)@,
{
    if new_rates.len() > 0 {
        *cache = new_rates;
    }
}

/// Replaces the cached supply with freshly extracted amounts, keeping the
/// old snapshot when the extraction came back empty, exactly as
/// [`update_rates`] does for rates.
pub fn update_supply(cache: &mut SupplySet, new_supply: SupplySet)
    ensures
        final(cache)@ == (if new_supply@.dom().len() == 0 {
            old(cache)@
        } else {
            new_supply@
        }),
        new_supply@.dom().len() == 0 ==> final(cache)@ == old(cache)@,
{
    if new_supply.len() > 0 {
        *cache = new_supply;
    }
}

/// Derives the price list from the two cached maps: one record per
/// denomination in the supply map — a denomination known only to the rate
/// map is never emitted — with the rate defaulting to zero where none is
/// known. Fails with `NotReady` while either map is still empty.
pub fn snapshot_prices(rates: &ExchangeRateSet, supply: &SupplySet) -> (r: Result<
    Prices,
    FeedError,
>)
    ensures
        match r {
            Ok(p) => {
                &&& rates@.dom().len() > 0
                &&& supply@.dom().len() > 0
                &&& p.prices@.len() == supply@.dom().len()
                &&& forall|i: int|
                    0 <= i < p.prices@.len() ==> {
                        let pr = #[trigger] p.prices@[i];
                        &&& supply@.contains_key(pr.denom@)
                        &&& pr.volume == supply@[pr.denom@]
                        &&& pr.price == (if rates@.contains_key(pr.denom@) {
                            rates@[pr.denom@]
                        } else {
                            Rate::spec_zero()
                        })
                    }
                &&& forall|i: int, j: int|
                    0 <= i < j < p.prices@.len() ==> p.prices@[i].denom@ != p.prices@[j].denom@
                &&& forall|d: Seq<char>|
                    #[trigger] supply@.contains_key(d) ==> exists|i: int|
                        0 <= i < p.prices@.len() && #[trigger] p.prices@[i].denom@ == d
            },
            Err(e) => {
                &&& e == FeedError::NotReady
                &&& rates@.dom().len() == 0 || supply@.dom().len() == 0
            },
        },
{
    if rates.len() == 0 {
        return Err(FeedError::NotReady);
    }
    if supply.len() == 0 {
        return Err(FeedError::NotReady);
    }
    proof {
        use_type_invariant(supply);
        lemma_entry_map_len(supply.entries@);
    }
    let n = supply.entries.len();
    let mut prices: Vec<Price> = Vec::new();
    let mut i: usize = 0;
    while i < n
        invariant
            i <= n,
            n == supply.entries@.len(),
            supply.wf(),
            prices@.len() == i,
            forall|j: int|
                0 <= j < i ==> {
                    let pr = #[trigger] prices@[j];
                    &&& pr.denom@ == supply.entries@[j].denom@
                    &&& pr.volume == supply.entries@[j].value
                    &&& pr.price == (if rates@.contains_key(pr.denom@) {
                        rates@[pr.denom@]
                    } else {
                        Rate::spec_zero()
                    })
                },
        decreases n - i,
    {
        let denom = &supply.entries[i].denom;
        let rate = match rates.get(denom.as_str()) {
            Some(v) => v,
            None => Rate::zero(),
        };
        let price = Price::new(denom.as_str(), rate, supply.entries[i].value);
        prices.push(price);
        proof {
            lemma_entry_map_get(supply.entries@, i as int);
        }
        i += 1;
    }
    proof {
        assert forall|j: int| 0 <= j < n implies supply@.contains_key(
            #[trigger] prices@[j].denom@,
        ) && prices@[j].volume == supply@[prices@[j].denom@] by {
            lemma_entry_map_get(supply.entries@, j);
        }
        assert forall|d: Seq<char>| #[trigger] supply@.contains_key(d) implies exists|i: int|
            0 <= i < prices@.len() && #[trigger] prices@[i].denom@ == d by {
            lemma_entry_map_dom(supply.entries@);
            let i = choose|i: int| 0 <= i < supply.entries@.len() && #[trigger] supply.entries@[
                i
            ].denom@ == d;
            assert(prices@[i].denom@ == d);
        }
    }
    Ok(Prices::new(prices))
}

} // verus!
