//! Commit message trailers: each token with the set of its distinct values.
use vstd::prelude::*;

verus! {

/// One trailer token with its distinct values, in the order they first appeared.
pub struct TrailerValues {
    pub token: String,
    pub values: Vec<String>,
}

/// The trailers of a commit message, gathered by token.
pub struct Trailers {
    entries: Vec<TrailerValues>,
    model: Ghost<Map<Seq<char>, Set<Seq<char>>>>,
}

/// The texts of a sequence of strings, as a set.
pub open spec fn text_set(vs: Seq<String>) -> Set<Seq<char>> {
    vs.map_values(|s: String| s@).to_set()
}

/// The map from each token to the set of its values, for `(token, value)` pairs in order.
pub open spec fn trailer_map(p: Seq<(Seq<char>, Seq<char>)>) -> Map<Seq<char>, Set<Seq<char>>>
    decreases p.len(),
{
    if p.len() == 0 {
        Map::empty()
    } else {
        add_trailer(trailer_map(p.drop_last()), p.last().0, p.last().1)
    }
}

/// The map with `value` added to the values of `token`.
pub open spec fn add_trailer(m: Map<Seq<char>, Set<Seq<char>>>, token: Seq<char>, value: Seq<char>) -> Map<
    Seq<char>,
    Set<Seq<char>>,
> {
    m.insert(token, if m.contains_key(token) { m[token].insert(value) } else { set![value] })
}

/// The texts of pairs of strings.
pub open spec fn pair_texts(p: Seq<(String, String)>) -> Seq<(Seq<char>, Seq<char>)> {
    p.map_values(|x: (String, String)| (x.0@, x.1@))
}

/// The entries hold exactly the map: one entry per token, and no value twice within an entry.
pub open spec fn represents(v: Seq<TrailerValues>, m: Map<Seq<char>, Set<Seq<char>>>) -> bool {
    &&& forall|i: int, j: int| 0 <= i < j < v.len() ==> v[i].token@ != v[j].token@
    &&& forall|i: int|
        0 <= i < v.len() ==> m.contains_key(#[trigger] v[i].token@) && m[v[i].token@] == text_set(
            v[i].values@,
        )
    &&& forall|k: Seq<char>| m.contains_key(k) ==> exists|i: int| 0 <= i < v.len() && v[i].token@ == k
    &&& forall|i: int, a: int, b: int|
        0 <= i < v.len() && 0 <= a < b < v[i].values@.len() ==> (#[trigger] v[i].values@[a])@
            != (#[trigger] v[i].values@[b])@
}

fn position_of(vs: &Vec<String>, v: &String) -> (r: Option<usize>)
    ensures
        r matches Some(a) ==> a < vs@.len() && vs@[a as int]@ == v@,
        r is None ==> forall|a: int| 0 <= a < vs@.len() ==> (#[trigger] vs@[a])@ != v@,
{
    let mut k: usize = 0;
    while k < vs.len()
        invariant
            k <= vs@.len(),
            forall|a: int| 0 <= a < k ==> (#[trigger] vs@[a])@ != v@,
        decreases vs@.len() - k,
    {
        if vs[k] == *v {
            return Some(k);
        }
        k = k + 1;
    }
    None
}

impl Trailers {
    /// The map from each token to the set of its values.
    pub closed spec fn view(&self) -> Map<Seq<char>, Set<Seq<char>>> {
        self.model@
    }

    pub closed spec fn wf(&self) -> bool {
        represents(self.entries@, self.model@)
    }

    /// No trailers.
    pub fn new() -> (r: Trailers)
        ensures
            r.wf(),
            r@ == Map::<Seq<char>, Set<Seq<char>>>::empty(),
    {
        Trailers { entries: Vec::new(), model: Ghost(Map::empty()) }
    }

    /// The entries, one per token.
    pub fn entries(&self) -> (r: &Vec<TrailerValues>)
        requires
            self.wf(),
        ensures
            represents(r@, self@),
    {
        &self.entries
    }

    fn find(&self, token: &String) -> (r: Option<usize>)
        ensures
            r matches Some(i) ==> i < self.entries@.len() && self.entries@[i as int].token@ == token@,
            r is None ==> forall|j: int|
                0 <= j < self.entries@.len() ==> self.entries@[j].token@ != token@,
    {
        let mut i: usize = 0;
        while i < self.entries.len()
            invariant
                i <= self.entries@.len(),
                forall|j: int| 0 <= j < i ==> self.entries@[j].token@ != token@,
            decreases self.entries@.len() - i,
        {
            if self.entries[i].token == *token {
                return Some(i);
            }
            i = i + 1;
        }
        None
    }

    /// The values of a token, if it has any.
    pub fn get(&self, token: &String) -> (r: Option<&Vec<String>>)
        requires
            self.wf(),
        ensures
            r is Some <==> self@.contains_key(token@),
            r matches Some(vs) ==> self@.contains_key(token@) && text_set(vs@) == self@[token@],
    {
        match self.find(token) {
            Some(i) => Some(&self.entries[i].values),
            None => None,
        }
    }

    /// Adds one value to a token's set; a value the token already has is not added again.
    pub fn insert(&mut self, token: String, value: String)
        requires
            old(self).wf(),
        ensures
            final(self).wf(),
            final(self)@ == add_trailer(old(self)@, token@, value@),
    {
        let ghost m0 = self.model@;
        let ghost v0 = self.entries@;
        let found = self.find(&token);
        let ghost m1 = add_trailer(m0, token@, value@);
        if found.is_none() {
            let ghost vs: Seq<String> = seq![value];
            let mut values: Vec<String> = Vec::new();
            values.push(value);
            proof {
                assert(values@ == vs);
                assert(text_set(vs) =~= set![value@]) by {
                    assert(vs.map_values(|s: String| s@) =~= seq![value@]);
                    assert(seq![value@].to_set() =~= set![value@]) by {
                        assert(seq![value@][0] == value@);
                    }
                }
                assert(!m0.contains_key(token@));
            }
            self.entries.push(TrailerValues { token, values });
            self.model = Ghost(m1);
            proof {
                let v1 = self.entries@;
                assert forall|k: Seq<char>| m1.contains_key(k) implies exists|j: int|
                    0 <= j < v1.len() && v1[j].token@ == k by {
                    if k != token@ {
                        let j = choose|j: int| 0 <= j < v0.len() && v0[j].token@ == k;
                        assert(v1[j] == v0[j]);
                    } else {
                        assert(v1[v0.len() as int].token@ == k);
                    }
                }
                assert forall|j: int| 0 <= j < v1.len() implies m1.contains_key(
                    #[trigger] v1[j].token@,
                ) && m1[v1[j].token@] == text_set(v1[j].values@) by {
                    if j < v0.len() {
                        assert(v1[j] == v0[j]);
                    }
                }
            }
        } else {
            let i = found.unwrap();
            let mut entry = self.entries.remove(i);
            let present = position_of(&entry.values, &value);
            let ghost old_values = entry.values@;
            proof {
                assert(m0.contains_key(token@));
                assert(m0[token@] == text_set(old_values));
            }
            if present.is_none() {
                entry.values.push(value);
                proof {
                    assert(entry.values@.map_values(|s: String| s@) =~= old_values.map_values(
                        |s: String| s@,
                    ).push(value@));
                    assert(text_set(entry.values@) =~= text_set(old_values).insert(value@)) by {
                        let a = old_values.map_values(|s: String| s@);
                        assert forall|x: Seq<char>| #[trigger] a.push(value@).contains(x) <==> (
                        a.contains(x) || x == value@) by {
                            if x == value@ {
                                assert(a.push(value@)[a.len() as int] == x);
                            }
                            if a.contains(x) {
                                let q = choose|q: int| 0 <= q < a.len() && a[q] == x;
                                assert(a.push(value@)[q] == x);
                            }
                        }
                    }
                }
            } else {
                proof {
                    assert(text_set(old_values).contains(value@)) by {
                        assert(old_values.map_values(|s: String| s@)[present.unwrap() as int] == value@);
                    }
                    assert(text_set(old_values).insert(value@) =~= text_set(old_values));
                }
            }
            self.entries.insert(i, entry);
            self.model = Ghost(m1);
            proof {
                let v1 = self.entries@;
                assert(v1 =~= v0.update(i as int, entry));
                assert forall|k: Seq<char>| m1.contains_key(k) implies exists|j: int|
                    0 <= j < v1.len() && v1[j].token@ == k by {
                    if k != token@ {
                        let j = choose|j: int| 0 <= j < v0.len() && v0[j].token@ == k;
                        assert(v1[j].token@ == k);
                    } else {
                        assert(v1[i as int].token@ == k);
                    }
                }
                assert forall|j: int| 0 <= j < v1.len() implies m1.contains_key(
                    #[trigger] v1[j].token@,
                ) && m1[v1[j].token@] == text_set(v1[j].values@) by {
                    if j != i {
                        assert(v1[j] == v0[j]);
                    }
                }
            }
        }
    }

    /// The trailers of `(token, value)` pairs, gathered in order.
    pub fn from_pairs(pairs: Vec<(String, String)>) -> (r: Trailers)
        ensures
            r.wf(),
            r@ == trailer_map(pair_texts(pairs@)),
    {
        let mut t = Trailers::new();
        let mut i: usize = 0;
        let ghost p = pair_texts(pairs@);
        while i < pairs.len()
            invariant
                i <= pairs@.len(),
                p == pair_texts(pairs@),
                t.wf(),
                t@ == trailer_map(p.take(i as int)),
            decreases pairs@.len() - i,
        {
            let token = pairs[i].0.clone();
            let value = pairs[i].1.clone();
            t.insert(token, value);
            proof {
                assert(p.take(i + 1).drop_last() =~= p.take(i as int));
            }
            i = i + 1;
        }
        assert(p.take(i as int) =~= p);
        t
    }
}

/// A trailer that repeats a `(token, value)` pair already seen changes nothing, while a new
/// value for a known token joins that token's set.
pub proof fn lemma_repeated_trailer_collapses(
    m: Map<Seq<char>, Set<Seq<char>>>,
    token: Seq<char>,
    value: Seq<char>,
    other: Seq<char>,
)
    ensures
        add_trailer(add_trailer(m, token, value), token, value) == add_trailer(m, token, value),
        add_trailer(add_trailer(m, token, value), token, other)[token] == add_trailer(
            m,
            token,
            value,
        )[token].insert(other),
{
    let m1 = add_trailer(m, token, value);
    assert(m1[token].insert(value) =~= m1[token]);
    assert(add_trailer(m1, token, value) =~= m1);
}

} // verus!
