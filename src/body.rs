use vstd::prelude::*;

use crate::pair::KvPair;

verus! {

/// The mapping that inserting `ps` in order into an empty map gives: a later
/// pair overwrites an earlier one with the same key.
pub open spec fn pairs_map(ps: Seq<KvPair>) -> Map<Seq<char>, Seq<char>>
    decreases ps.len(),
{
    if ps.len() == 0 {
        Map::empty()
    } else {
        pairs_map(ps.drop_last()).insert(ps.last().k@, ps.last().v@)
    }
}

/// No two pairs of `ps` share a key.
pub open spec fn keys_unique(ps: Seq<KvPair>) -> bool {
    forall|i: int, j: int| 0 <= i < j < ps.len() ==> ps[i].k@ != ps[j].k@
}

/// The JSON object that a POST sends, as its key-value entries: each key once,
/// in the order in which it first came.
pub struct RequestBody {
    entries: Vec<KvPair>,
}

impl View for RequestBody {
    type V = Map<Seq<char>, Seq<char>>;

    open spec fn view(&self) -> Map<Seq<char>, Seq<char>> {
        pairs_map(self.spec_entries())
    }
}

impl RequestBody {
    /// The entries as stored.
    pub closed spec fn spec_entries(&self) -> Seq<KvPair> {
        self.entries@
    }

    /// Keys are unique among the entries.
    #[verifier::type_invariant]
    spec fn wf(&self) -> bool {
        keys_unique(self.entries@)
    }

    /// The entries, each key once.
    pub fn entries(&self) -> (r: &Vec<KvPair>)
        ensures
            r@ == self.spec_entries(),
            keys_unique(r@),
            pairs_map(r@) == self@,
    {
        proof {
            use_type_invariant(self);
        }
        &self.entries
    }

    /// The number of distinct keys.
    pub fn len(&self) -> (r: usize)
        ensures
            r == self@.len(),
    {
        proof {
            use_type_invariant(self);
            lemma_unique_map_len(self.entries@);
        }
        self.entries.len()
    }

    /// The value the body holds for `key`, if any.
    pub fn get(&self, key: &str) -> (r: Option<String>)
        ensures
            r is Some <==> self@.contains_key(key@),
            r matches Some(v) ==> v@ == self@[key@],
    {
        proof {
            use_type_invariant(self);
        }
        let wanted = key.to_owned();
        let mut j: usize = 0;
        while j < self.entries.len()
            invariant
                keys_unique(self.entries@),
                j <= self.entries@.len(),
                forall|i: int| 0 <= i < j ==> self.entries@[i].k@ != wanted@,
                wanted@ == key@,
            decreases self.entries@.len() - j,
        {
            if self.entries[j].k == wanted {
                proof {
                    lemma_map_at_last(self.entries@, j as int);
                }
                return Some(self.entries[j].v.clone());
            }
            j = j + 1;
        }
        proof {
            lemma_map_dom(self.entries@);
        }
        None
    }
}

/// The keys of `pairs_map(ps)` are exactly the keys of `ps`.
proof fn lemma_map_dom(ps: Seq<KvPair>)
    ensures
        forall|k: Seq<char>| #[trigger]
            pairs_map(ps).contains_key(k) <==> exists|i: int| 0 <= i < ps.len() && ps[i].k@ == k,
    decreases ps.len(),
{
    if ps.len() > 0 {
        lemma_map_dom(ps.drop_last());
        assert forall|k: Seq<char>| #[trigger]
            pairs_map(ps).contains_key(k) implies exists|i: int|
                0 <= i < ps.len() && ps[i].k@ == k by {
            if k != ps.last().k@ {
                assert(pairs_map(ps.drop_last()).contains_key(k));
                let i = choose|i: int| 0 <= i < ps.drop_last().len() && ps.drop_last()[i].k@ == k;
                assert(ps[i].k@ == k);
            } else {
                assert(ps[ps.len() - 1].k@ == k);
            }
        }
        assert forall|k: Seq<char>|
            (exists|i: int| 0 <= i < ps.len() && ps[i].k@ == k) implies #[trigger]
            pairs_map(ps).contains_key(k) by {
            let i = choose|i: int| 0 <= i < ps.len() && ps[i].k@ == k;
            if i < ps.len() - 1 {
                assert(ps.drop_last()[i].k@ == k);
                assert(pairs_map(ps.drop_last()).contains_key(k));
            }
        }
    }
}

/// Where a pair's key comes in no later pair, the map holds that pair's value.
proof fn lemma_map_at_last(ps: Seq<KvPair>, i: int)
    requires
        0 <= i < ps.len(),
        forall|j: int| i < j < ps.len() ==> ps[j].k@ != ps[i].k@,
    ensures
        pairs_map(ps).contains_key(ps[i].k@),
        pairs_map(ps)[ps[i].k@] == ps[i].v@,
    decreases ps.len(),
{
    if i < ps.len() - 1 {
        let front = ps.drop_last();
        assert(forall|j: int| i < j < front.len() ==> front[j] == ps[j]);
        lemma_map_at_last(front, i);
    }
}

/// With unique keys the map has one key per pair.
proof fn lemma_unique_map_len(ps: Seq<KvPair>)
    requires
        keys_unique(ps),
    ensures
        pairs_map(ps).len() == ps.len(),
        pairs_map(ps).dom().finite(),
    decreases ps.len(),
{
    if ps.len() > 0 {
        let front = ps.drop_last();
        lemma_unique_map_len(front);
        lemma_map_dom(front);
        if pairs_map(front).contains_key(ps.last().k@) {
            let i = choose|i: int| 0 <= i < front.len() && front[i].k@ == ps.last().k@;
            assert(ps[i].k@ == ps[ps.len() - 1].k@);
        }
    }
}

/// Overwriting the value of pair `j` in a sequence of unique keys overwrites
/// that key's value in the map.
proof fn lemma_map_update(ps: Seq<KvPair>, j: int, p: KvPair)
    requires
        0 <= j < ps.len(),
        keys_unique(ps),
        p.k@ == ps[j].k@,
    ensures
        pairs_map(ps.update(j, p)) == pairs_map(ps).insert(p.k@, p.v@),
    decreases ps.len(),
{
    let qs = ps.update(j, p);
    if j == ps.len() - 1 {
        assert(qs.drop_last() =~= ps.drop_last());
        assert(pairs_map(qs) =~= pairs_map(ps).insert(p.k@, p.v@));
    } else {
        assert(qs.drop_last() =~= ps.drop_last().update(j, p));
        lemma_map_update(ps.drop_last(), j, p);
        assert(ps[j].k@ != ps[ps.len() - 1].k@);
        assert(pairs_map(qs) =~= pairs_map(ps).insert(p.k@, p.v@));
    }
}

/// Builds the body of a POST from its pairs, in order: where keys repeat, the
/// last value wins.
pub fn build_body(pairs: &Vec<KvPair>) -> (r: RequestBody)
    ensures
        r@ == pairs_map(pairs@),
{
    let mut entries: Vec<KvPair> = Vec::new();
    let mut i: usize = 0;
    while i < pairs.len()
        invariant
            i <= pairs@.len(),
            keys_unique(entries@),
            pairs_map(entries@) == pairs_map(pairs@.take(i as int)),
        decreases pairs@.len() - i,
    {
        let p = KvPair { k: pairs[i].k.clone(), v: pairs[i].v.clone() };
        assert(pairs@.take(i + 1).drop_last() =~= pairs@.take(i as int));
        let mut j: usize = 0;
        let mut found = false;
        while j < entries.len() && !found
            invariant
                i < pairs@.len(),
                keys_unique(entries@),
                pairs_map(entries@) == pairs_map(pairs@.take(i as int)),
                j <= entries@.len(),
                found ==> j < entries@.len() && entries@[j as int].k@ == p.k@,
                !found ==> forall|m: int| 0 <= m < j ==> entries@[m].k@ != p.k@,
            decreases entries@.len() + 1 - j - (if found { 1int } else { 0int }),
        {
            if entries[j].k == p.k {
                found = true;
            } else {
                j = j + 1;
            }
        }
        proof {
            if found {
                lemma_map_update(entries@, j as int, p);
            }
        }
        let ghost before = entries@;
        if found {
            entries.set(j, p);
        } else {
            entries.push(p);
            assert(entries@.drop_last() =~= before);
        }
        assert(pairs@.take(i + 1).last() == pairs@[i as int]);
        assert(pairs_map(entries@) =~= pairs_map(pairs@.take(i + 1)));
        i = i + 1;
    }
    assert(pairs@.take(pairs@.len() as int) =~= pairs@);
    RequestBody { entries }
}

/// The body holds a key exactly when some pair has it, and then the value of
/// the last pair with that key.
pub proof fn lemma_last_wins(pairs: Seq<KvPair>, i: int)
    requires
        0 <= i < pairs.len(),
        forall|j: int| i < j < pairs.len() ==> pairs[j].k@ != pairs[i].k@,
    ensures
        pairs_map(pairs).contains_key(pairs[i].k@),
        pairs_map(pairs)[pairs[i].k@] == pairs[i].v@,
        forall|k: Seq<char>| #[trigger]
            pairs_map(pairs).contains_key(k) <==> exists|j: int|
                0 <= j < pairs.len() && pairs[j].k@ == k,
{
    lemma_map_at_last(pairs, i);
    lemma_map_dom(pairs);
}

} // verus!
