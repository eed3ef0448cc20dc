use vstd::prelude::*;

use crate::error::DecodeError;
use crate::value::{Value, ValueModel};

verus! {

/// The resolved properties of one feature: a mapping from key strings
/// to attribute values.  Entries are stored with unique keys, so the
/// store and its mathematical map agree entry for entry.
#[derive(Debug)]
pub struct Properties {
    entries: Vec<(String, Value)>,
}

/// The map an entry list denotes, with a later entry for a key
/// overwriting an earlier one.
pub open spec fn entries_map(s: Seq<(String, Value)>) -> Map<Seq<char>, ValueModel>
    decreases s.len(),
{
    if s.len() == 0 {
        Map::empty()
    } else {
        entries_map(s.drop_last()).insert(s.last().0@, s.last().1@)
    }
}

impl View for Properties {
    type V = Map<Seq<char>, ValueModel>;

    closed spec fn view(&self) -> Map<Seq<char>, ValueModel> {
        entries_map(self.entries@)
    }
}

/// Whether an entry list holds each key at most once.
pub open spec fn unique_keys(s: Seq<(String, Value)>) -> bool {
    forall|a: int, b: int| 0 <= a < b < s.len() ==> #[trigger] s[a].0@ != #[trigger] s[b].0@
}

impl Properties {
    /// The store holds each key at most once.
    pub closed spec fn wf(&self) -> bool {
        unique_keys(self.entries@)
    }

    /// An empty property mapping.
    pub fn new() -> (r: Properties)
        ensures
            r.wf(),
            r@ == Map::<Seq<char>, ValueModel>::empty(),
    {
        let r = Properties { entries: Vec::new() };
        proof {
            assert(r.entries@.len() == 0);
        }
        r
    }

    /// Binds `key` to `value`, replacing any earlier binding of `key`.
    pub fn insert(&mut self, key: String, value: Value)
        requires
            old(self).wf(),
        ensures
            final(self).wf(),
            final(self)@ == old(self)@.insert(key@, value@),
    {
        let n = self.entries.len();
        let mut i: usize = 0;
        while i < n
            invariant
                n == self.entries@.len(),
                0 <= i <= n,
                self.entries@ == old(self).entries@,
                unique_keys(self.entries@),
                forall|j: int| 0 <= j < i ==> #[trigger] self.entries@[j].0@ != key@,
            decreases n - i,
        {
            if self.entries[i].0 == key {
                let ghost s0 = self.entries@;
                self.entries.set(i, (key, value));
                proof {
                    assert(unique_keys(s0));
                    let u = self.entries@;
                    assert forall|a: int, b: int| 0 <= a < b < u.len() implies #[trigger] u[a].0@
                        != #[trigger] u[b].0@ by {
                        assert(s0[a].0@ != s0[b].0@);
                        if a == i as int {
                            assert(u[a].0@ == s0[a].0@);
                        }
                        if b == i as int {
                            assert(u[b].0@ == s0[b].0@);
                        }
                    }
                    lemma_entries_map_update(s0, i as int, (key, value));
                }
                return ;
            }
            i = i + 1;
        }
        let ghost s0 = self.entries@;
        self.entries.push((key, value));
        proof {
            let u = self.entries@;
            assert forall|a: int, b: int| 0 <= a < b < u.len() implies #[trigger] u[a].0@
                != #[trigger] u[b].0@ by {
                if b < s0.len() {
                    assert(s0[a].0@ != s0[b].0@);
                } else {
                    assert(s0[a].0@ != key@);
                }
            }
            assert(u.drop_last() =~= s0);
        }
    }

    /// Looks `key` up in the mapping.
    pub fn get(&self, key: &String) -> (r: Option<&Value>)
        requires
            self.wf(),
        ensures
            match r {
                Some(v) => self@.contains_key(key@) && v@ == self@[key@],
                None => !self@.contains_key(key@),
            },
    {
        let n = self.entries.len();
        let mut i: usize = 0;
        while i < n
            invariant
                self.wf(),
                n == self.entries@.len(),
                0 <= i <= n,
                forall|j: int| 0 <= j < i ==> #[trigger] self.entries@[j].0@ != key@,
            decreases n - i,
        {
            if self.entries[i].0 == *key {
                proof {
                    lemma_entries_map_get(self.entries@, i as int);
                }
                return Some(&self.entries[i].1);
            }
            i = i + 1;
        }
        proof {
            lemma_entries_map_absent(self.entries@, key@);
        }
        None
    }

    /// The number of bound keys.
    pub fn len(&self) -> (n: usize)
        requires
            self.wf(),
        ensures
            n == self@.len(),
    {
        proof {
            lemma_entries_map_len(self.entries@);
        }
        self.entries.len()
    }
}

proof fn lemma_unique_drop_last(s: Seq<(String, Value)>)
    requires
        unique_keys(s),
        s.len() > 0,
    ensures
        unique_keys(s.drop_last()),
{
    let d = s.drop_last();
    assert forall|a: int, b: int| 0 <= a < b < d.len() implies #[trigger] d[a].0@
        != #[trigger] d[b].0@ by {
        assert(s[a].0@ != s[b].0@);
        assert(d[a] == s[a]);
        assert(d[b] == s[b]);
    }
}

proof fn lemma_entries_map_get(s: Seq<(String, Value)>, i: int)
    requires
        0 <= i < s.len(),
        unique_keys(s),
    ensures
        entries_map(s).contains_key(s[i].0@),
        entries_map(s)[s[i].0@] == s[i].1@,
    decreases s.len(),
{
    if i == s.len() - 1 {
    } else {
        lemma_unique_drop_last(s);
        assert(s.drop_last()[i] == s[i]);
        lemma_entries_map_get(s.drop_last(), i);
        assert(s[i].0@ != s[s.len() - 1].0@);
    }
}

proof fn lemma_entries_map_absent(s: Seq<(String, Value)>, k: Seq<char>)
    requires
        forall|j: int| 0 <= j < s.len() ==> #[trigger] s[j].0@ != k,
    ensures
        !entries_map(s).contains_key(k),
    decreases s.len(),
{
    if s.len() > 0 {
        assert(forall|j: int|
            0 <= j < s.drop_last().len() ==> #[trigger] s.drop_last()[j].0@ != k);
        lemma_entries_map_absent(s.drop_last(), k);
    }
}

proof fn lemma_entries_map_len(s: Seq<(String, Value)>)
    requires
        unique_keys(s),
    ensures
        entries_map(s).dom().finite(),
        entries_map(s).len() == s.len(),
    decreases s.len(),
{
    if s.len() > 0 {
        let d = s.drop_last();
        lemma_unique_drop_last(s);
        lemma_entries_map_len(d);
        assert forall|j: int| 0 <= j < d.len() implies #[trigger] d[j].0@ != s.last().0@ by {
            assert(s[j].0@ != s[s.len() - 1].0@);
            assert(d[j] == s[j]);
        }
        lemma_entries_map_absent(d, s.last().0@);
    }
}

proof fn lemma_entries_map_update(s: Seq<(String, Value)>, i: int, e: (String, Value))
    requires
        0 <= i < s.len(),
        unique_keys(s),
        s[i].0@ == e.0@,
    ensures
        entries_map(s.update(i, e)) == entries_map(s).insert(e.0@, e.1@),
    decreases s.len(),
{
    let u = s.update(i, e);
    if i == s.len() - 1 {
        assert(u.drop_last() =~= s.drop_last());
        assert(u.last() == e);
        assert(entries_map(s.drop_last()).insert(s.last().0@, s.last().1@).insert(e.0@, e.1@)
            =~= entries_map(s.drop_last()).insert(e.0@, e.1@));
    } else {
        let d = s.drop_last();
        assert(u.drop_last() =~= d.update(i, e));
        assert(u.last() == s.last());
        assert(d[i] == s[i]);
        lemma_unique_drop_last(s);
        lemma_entries_map_update(d, i, e);
        assert(s[i].0@ != s[s.len() - 1].0@);
        assert(entries_map(d).insert(e.0@, e.1@).insert(s.last().0@, s.last().1@) =~= entries_map(
            d,
        ).insert(s.last().0@, s.last().1@).insert(e.0@, e.1@));
    }
}

/// The character sequences a key dictionary denotes.
pub open spec fn keys_model(keys: Seq<String>) -> Seq<Seq<char>> {
    keys.map_values(|s: String| s@)
}

/// The value models a value dictionary denotes.
pub open spec fn vals_model(vals: Seq<Value>) -> Seq<ValueModel> {
    vals.map_values(|v: Value| v@)
}

/// Folds tag index pairs into a property map from front to back, so a
/// later pair overwrites an earlier one on a duplicate key.  Any index
/// past the end of its dictionary is a failure.
pub open spec fn spec_resolve_pairs(
    tags: Seq<u32>,
    keys: Seq<Seq<char>>,
    vals: Seq<ValueModel>,
    acc: Map<Seq<char>, ValueModel>,
) -> Result<Map<Seq<char>, ValueModel>, DecodeError>
    decreases tags.len(),
{
    if tags.len() < 2 {
        Ok(acc)
    } else {
        let k = tags[0];
        let v = tags[1];
        if k >= keys.len() || v >= vals.len() {
            Err(DecodeError::IndexOutOfRange)
        } else {
            spec_resolve_pairs(tags.skip(2), keys, vals, acc.insert(keys[k as int], vals[v as int]))
        }
    }
}

/// The property map a feature's tag array resolves to against its
/// layer's dictionaries: pairs of (key index, value index), consumed
/// two at a time.  An odd-length array is malformed, and any index out
/// of range of its dictionary is a failure.
pub open spec fn spec_resolve_tags(
    tags: Seq<u32>,
    keys: Seq<Seq<char>>,
    vals: Seq<ValueModel>,
) -> Result<Map<Seq<char>, ValueModel>, DecodeError> {
    if tags.len() % 2 == 1 {
        Err(DecodeError::MalformedTags)
    } else {
        spec_resolve_pairs(tags, keys, vals, Map::empty())
    }
}

/// Resolves a feature's tag index pairs against its layer's completed
/// key and value dictionaries.
pub fn resolve_tags(tags: &Vec<u32>, keys: &Vec<String>, values: &Vec<Value>) -> (r: Result<
    Properties,
    DecodeError,
>)
    ensures
        match r {
            Ok(p) => p.wf() && spec_resolve_tags(tags@, keys_model(keys@), vals_model(values@))
                == Ok::<_, DecodeError>(p@),
            Err(e) => spec_resolve_tags(tags@, keys_model(keys@), vals_model(values@)) == Err::<
                Map<Seq<char>, ValueModel>,
                _,
            >(e),
        },
{
    let ghost ts = tags@;
    let ghost km = keys_model(keys@);
    let ghost vm = vals_model(values@);
    if tags.len() % 2 == 1 {
        return Err(DecodeError::MalformedTags);
    }
    let n = tags.len();
    let mut props = Properties::new();
    let mut i: usize = 0;
    proof {
        assert(ts.skip(0) =~= ts);
    }
    while i < n
        invariant
            n == ts.len(),
            ts == tags@,
            km == keys_model(keys@),
            vm == vals_model(values@),
            n % 2 == 0,
            i % 2 == 0,
            0 <= i <= n,
            props.wf(),
            spec_resolve_pairs(ts, km, vm, Map::empty()) == spec_resolve_pairs(
                ts.skip(i as int),
                km,
                vm,
                props@,
            ),
        decreases n - i,
    {
        let ghost i0 = i as int;
        proof {
            assert(ts.skip(i0)[0] == ts[i0]);
            assert(ts.skip(i0)[1] == ts[i0 + 1]);
            assert(ts.skip(i0).len() == n - i0 >= 2);
        }
        let k = tags[i];
        let v = tags[i + 1];
        if k as usize >= keys.len() || v as usize >= values.len() {
            return Err(DecodeError::IndexOutOfRange);
        }
        let key = keys[k as usize].clone();
        let val = values[v as usize].clone();
        proof {
            assert(km[k as int] == keys@[k as int]@);
            assert(vm[v as int] == values@[v as int]@);
        }
        props.insert(key, val);
        i = i + 2;
        proof {
            assert(ts.skip(i0).skip(2) =~= ts.skip(i0 + 2));
        }
    }
    proof {
        assert(ts.skip(n as int).len() == 0);
    }
    Ok(props)
}

} // verus!
