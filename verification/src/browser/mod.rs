pub mod config;
pub mod instance;
pub mod scripts;

use vstd::prelude::*;
use crate::error::LynxError;
use crate::text::{str_eq, to_string};
use crate::types::InstanceInfo;
use self::config::LynxConfig;
use self::instance::BrowserInstance;

verus! {

/// One registry entry: the id an instance was registered under, and the instance.
pub type Entry<H> = (String, BrowserInstance<H>);

/// The position of the entry registered under `id`: the last one with that key.
pub open spec fn index_of<H>(s: Seq<Entry<H>>, id: Seq<char>) -> Option<int>
    decreases s.len(),
{
    if s.len() == 0 {
        None
    } else if s.last().0@ == id {
        Some(s.len() - 1)
    } else {
        index_of(s.drop_last(), id)
    }
}

/// The instance registered under `id`, if one runs.
pub open spec fn lookup<H>(s: Seq<Entry<H>>, id: Seq<char>) -> Option<BrowserInstance<H>> {
    match index_of(s, id) {
        Some(i) => Some(s[i].1),
        None => None,
    }
}

/// No two entries share a key.
pub open spec fn distinct_keys<H>(s: Seq<Entry<H>>) -> bool {
    forall|i: int, j: int| 0 <= i < j < s.len() ==> s[i].0@ != s[j].0@
}

/// The entries after `inst` is registered under its id: it replaces the entry with that
/// key, or joins the end.
pub open spec fn added<H>(s: Seq<Entry<H>>, inst: BrowserInstance<H>) -> Seq<Entry<H>> {
    match index_of(s, inst.id@) {
        Some(i) => s.update(i, (s[i].0, inst)),
        None => s.push((inst.id, inst)),
    }
}

/// The entries after the one registered under `id` is removed.
pub open spec fn removed<H>(s: Seq<Entry<H>>, id: Seq<char>) -> Seq<Entry<H>> {
    match index_of(s, id) {
        Some(i) => s.remove(i),
        None => s,
    }
}

/// What `index_of` finds: an entry with that key, after which none has it; or that none
/// has it at all.
pub proof fn lemma_index_of<H>(s: Seq<Entry<H>>, id: Seq<char>)
    ensures
        match index_of(s, id) {
            Some(i) => 0 <= i < s.len() && s[i].0@ == id
                && forall|j: int| i < j < s.len() ==> s[j].0@ != id,
            None => forall|j: int| 0 <= j < s.len() ==> s[j].0@ != id,
        },
    decreases s.len(),
{
    if s.len() > 0 {
        let d = s.drop_last();
        lemma_index_of(d, id);
        assert(forall|j: int| 0 <= j < d.len() ==> d[j] == s[j]);
    }
}

/// Owns the running browser instances, each driven through a handle of type `H`, keyed by
/// the id each was registered under.
pub struct BrowserManager<H> {
    table: Table<H>,
    config: LynxConfig,
}

/// The keys and the instances of a manager, at matching positions.
struct Table<H> {
    keys: Vec<String>,
    instances: Vec<BrowserInstance<H>>,
}

/// No two keys alike.
pub open spec fn distinct_strings(keys: Seq<String>) -> bool {
    forall|i: int, j: int| 0 <= i < j < keys.len() ==> keys[i]@ != keys[j]@
}

/// Pairs each key with the instance at the same position.
pub open spec fn pair_up<H>(keys: Seq<String>, instances: Seq<BrowserInstance<H>>) -> Seq<Entry<H>> {
    Seq::new(keys.len(), |i: int| (keys[i], instances[i]))
}

impl<H> BrowserManager<H> {
    /// The manager's invariant: one key per instance, and no two keys alike.
    #[verifier::type_invariant]
    spec fn keys_unique(self) -> bool {
        &&& self.table.keys@.len() == self.table.instances@.len()
        &&& distinct_strings(self.table.keys@)
    }

    /// The entries, in the order they were registered.
    pub closed spec fn entries(&self) -> Seq<Entry<H>> {
        pair_up(self.table.keys@, self.table.instances@)
    }

    /// The settings instances are launched with.
    pub closed spec fn settings(&self) -> LynxConfig {
        self.config
    }

    /// A manager with no instances.
    pub fn new(config: LynxConfig) -> (m: Self)
        ensures
            m.entries() == Seq::<Entry<H>>::empty(),
            m.settings() == config,
    {
        let m = BrowserManager { table: Table { keys: Vec::new(), instances: Vec::new() }, config };
        assert(m.entries() =~= Seq::<Entry<H>>::empty());
        m
    }

    /// The settings instances are launched with.
    pub fn config(&self) -> (c: &LynxConfig)
        ensures
            *c == self.settings(),
    {
        &self.config
    }

    /// The number of instances.
    pub fn len(&self) -> (n: usize)
        ensures
            n == self.entries().len(),
    {
        self.table.keys.len()
    }

    /// The instances, in the order they were registered.
    pub fn instances(&self) -> (v: &Vec<BrowserInstance<H>>)
        ensures
            v@.len() == self.entries().len(),
            forall|i: int| 0 <= i < v@.len() ==> v@[i] == #[trigger] self.entries()[i].1,
            distinct_keys(self.entries()),
    {
        proof {
            use_type_invariant(self);
        }
        &self.table.instances
    }

    fn find(&self, id: &str) -> (res: Option<usize>)
        ensures
            match res {
                Some(i) => index_of(self.entries(), id@) == Some(i as int) && i < self.table.instances@.len(),
                None => index_of(self.entries(), id@) is None,
            },
    {
        proof {
            use_type_invariant(self);
        }
        let ghost e = self.entries();
        let mut k: usize = self.table.keys.len();
        assert(e.take(k as int) =~= e);
        while k > 0
            invariant
                e == self.entries(),
                self.table.keys@.len() == self.table.instances@.len(),
                k <= self.table.keys@.len(),
                index_of(e, id@) == index_of(e.take(k as int), id@),
            decreases k,
        {
            let ghost t = e.take(k as int);
            assert(t.drop_last() =~= e.take(k - 1));
            if str_eq(self.table.keys[k - 1].as_str(), id) {
                return Some(k - 1);
            }
            k = k - 1;
        }
        None
    }

    /// Get a reference to an instance by ID, or the default (first) instance
    pub fn get_instance(&self, id: &Option<String>) -> (res: Result<&BrowserInstance<H>, LynxError>)
        ensures
            match id {
                Some(id) => match lookup(self.entries(), id@) {
                    Some(inst) => res matches Ok(r) && *r == inst,
                    None => res matches Err(LynxError::InstanceNotFound(m)) && m@ == id@,
                },
                None => if self.entries().len() > 0 {
                    res matches Ok(r) && *r == self.entries()[0].1
                } else {
                    res matches Err(LynxError::NoInstance(m)) && m@ == "no instances running"@
                },
            },
    {
        proof {
            use_type_invariant(self);
        }
        match id {
            Some(id) => match self.find(id.as_str()) {
                Some(i) => Ok(&self.table.instances[i]),
                None => Err(LynxError::InstanceNotFound(id.clone())),
            },
            None => {
                if self.table.instances.len() > 0 {
                    Ok(&self.table.instances[0])
                } else {
                    Err(LynxError::NoInstance(to_string("no instances running")))
                }
            },
        }
    }

    /// Get a mutable reference to an instance by ID, or the default (first) instance.
    /// The entry keeps its key whatever the caller does with the instance.
    pub fn get_instance_mut(&mut self, id: &Option<String>) -> (res: Result<&mut BrowserInstance<H>, LynxError>)
        ensures
            match id {
                Some(id) => match index_of(old(self).entries(), id@) {
                    Some(i) => res matches Ok(r) && *r == old(self).entries()[i].1
                        && final(self).entries() == old(self).entries().update(i, (old(self).entries()[i].0, *final(r))),
                    None => res matches Err(LynxError::InstanceNotFound(m)) && m@ == id@
                        && final(self).entries() == old(self).entries(),
                },
                None => if old(self).entries().len() > 0 {
                    res matches Ok(r) && *r == old(self).entries()[0].1
                        && final(self).entries() == old(self).entries().update(0, (old(self).entries()[0].0, *final(r)))
                } else {
                    res matches Err(LynxError::NoInstance(m)) && m@ == "no instances running"@
                        && final(self).entries() == old(self).entries()
                },
            },
            final(self).settings() == old(self).settings(),
    {
        proof {
            use_type_invariant(&*self);
        }
        let idx = match id {
            Some(id) => match self.find(id.as_str()) {
                Some(i) => i,
                None => return Err(LynxError::InstanceNotFound(id.clone())),
            },
            None => {
                if self.table.instances.len() > 0 {
                    0
                } else {
                    return Err(LynxError::NoInstance(to_string("no instances running")));
                }
            },
        };
        proof {
            lemma_pair_up_update(self.table.keys@, self.table.instances@, idx as int);
        }
        Ok(&mut self.table.instances[idx])
    }

    /// Registers a launched instance under its id; returns that id.
    pub fn add_instance(&mut self, inst: BrowserInstance<H>) -> (id: String)
        ensures
            id@ == inst.id@,
            final(self).entries() == added(old(self).entries(), inst),
            final(self).settings() == old(self).settings(),
    {
        proof {
            use_type_invariant(&*self);
            law_added_instance_is_found(self.entries(), inst);
            lemma_index_of(self.entries(), inst.id@);
        }
        let id = inst.id.clone();
        let found = self.find(id.as_str());
        let mut table = Table { keys: Vec::new(), instances: Vec::new() };
        std::mem::swap(&mut table, &mut self.table);
        let Table { mut keys, mut instances } = table;
        let ghost target = added(pair_up(keys@, instances@), inst);
        match found {
            Some(i) => {
                instances.set(i, inst);
                assert(pair_up(keys@, instances@) =~= target);
            },
            None => {
                keys.push(inst.id.clone());
                instances.push(inst);
                assert(pair_up(keys@, instances@) =~= target);
            },
        }
        proof {
            lemma_distinct_entries(keys@, instances@);
        }
        self.table = Table { keys, instances };
        id
    }

    /// The listing of the instances; `alive[i]` tells whether the browser of the `i`-th
    /// instance still runs and `urls[i]` is the address its page shows now.
    pub fn list_instances(&self, alive: &Vec<bool>, urls: &Vec<String>) -> (infos: Vec<InstanceInfo>)
        requires
            alive@.len() == self.entries().len(),
            urls@.len() == self.entries().len(),
        ensures
            infos@.len() == self.entries().len(),
            forall|i: int| 0 <= i < infos@.len() ==> {
                &&& (#[trigger] infos@[i]).id@ == self.entries()[i].1.id@
                &&& infos@[i].profile@ == self.entries()[i].1.profile@
                &&& infos@[i].url@ == urls@[i]@
                &&& infos@[i].created_at@ == self.entries()[i].1.created_at@
                &&& infos@[i].headless == self.entries()[i].1.headless
                &&& infos@[i].status@ == (if alive@[i] { "alive"@ } else { "dead"@ })
            },
    {
        proof {
            use_type_invariant(self);
        }
        let mut infos: Vec<InstanceInfo> = Vec::new();
        let mut i: usize = 0;
        while i < self.table.instances.len()
            invariant
                self.table.keys@.len() == self.table.instances@.len(),
                alive@.len() == self.table.instances@.len(),
                urls@.len() == self.table.instances@.len(),
                i <= self.table.instances@.len(),
                infos@.len() == i,
                forall|k: int| 0 <= k < i ==> {
                    &&& (#[trigger] infos@[k]).id@ == self.table.instances@[k].id@
                    &&& infos@[k].profile@ == self.table.instances@[k].profile@
                    &&& infos@[k].url@ == urls@[k]@
                    &&& infos@[k].created_at@ == self.table.instances@[k].created_at@
                    &&& infos@[k].headless == self.table.instances@[k].headless
                    &&& infos@[k].status@ == (if alive@[k] { "alive"@ } else { "dead"@ })
                },
            decreases self.table.instances.len() - i,
        {
            infos.push(self.table.instances[i].info(alive[i], urls[i].as_str()));
            i = i + 1;
        }
        infos
    }

    /// Removes the instance registered under `id`.
    pub fn destroy_instance(&mut self, id: &str) -> (res: Result<(), LynxError>)
        ensures
            lookup(old(self).entries(), id@) is Some ==> res is Ok,
            lookup(old(self).entries(), id@) is None ==> (res matches Err(LynxError::InstanceNotFound(m)) && m@ == id@),
            final(self).entries() == removed(old(self).entries(), id@),
            final(self).settings() == old(self).settings(),
    {
        proof {
            use_type_invariant(&*self);
            lemma_index_of(self.entries(), id@);
            law_destroyed_instance_is_gone(self.entries(), id@);
        }
        match self.find(id) {
            Some(i) => {
                let mut table = Table { keys: Vec::new(), instances: Vec::new() };
                std::mem::swap(&mut table, &mut self.table);
                let Table { mut keys, mut instances } = table;
                let ghost target = removed(pair_up(keys@, instances@), id@);
                let _key = keys.remove(i);
                let _inst = instances.remove(i);
                assert(pair_up(keys@, instances@) =~= target);
                proof {
                    lemma_distinct_entries(keys@, instances@);
                }
                self.table = Table { keys, instances };
                Ok(())
            },
            None => Err(LynxError::InstanceNotFound(to_string(id))),
        }
    }
}

/// Unique keys are unique entry keys.
proof fn lemma_distinct_entries<H>(keys: Seq<String>, instances: Seq<BrowserInstance<H>>)
    requires
        keys.len() == instances.len(),
    ensures
        distinct_keys(pair_up(keys, instances)) <==> distinct_strings(keys),
{
    let e = pair_up(keys, instances);
    if distinct_strings(keys) {
        assert forall|i: int, j: int| 0 <= i < j < e.len() implies e[i].0@ != e[j].0@ by {
            assert(e[i].0 == keys[i] && e[j].0 == keys[j]);
        }
    }
    if distinct_keys(e) {
        assert forall|i: int, j: int| 0 <= i < j < keys.len() implies keys[i]@ != keys[j]@ by {
            assert(e[i].0 == keys[i] && e[j].0 == keys[j]);
        }
    }
}

/// Replacing one instance replaces the instance of that entry and keeps its key.
proof fn lemma_pair_up_update<H>(keys: Seq<String>, instances: Seq<BrowserInstance<H>>, i: int)
    requires
        keys.len() == instances.len(),
        0 <= i < keys.len(),
    ensures
        forall|x: BrowserInstance<H>| #[trigger] pair_up(keys, instances.update(i, x))
            == pair_up(keys, instances).update(i, (keys[i], x)),
{
    assert forall|x: BrowserInstance<H>| #[trigger] pair_up(keys, instances.update(i, x))
        == pair_up(keys, instances).update(i, (keys[i], x)) by {
        assert(pair_up(keys, instances.update(i, x)) =~= pair_up(keys, instances).update(i, (keys[i], x)));
    }
}

/// With unique keys, the entry under `id` is the only one with that key.
proof fn lemma_unique_index<H>(s: Seq<Entry<H>>, id: Seq<char>)
    requires
        distinct_keys(s),
    ensures
        index_of(s, id) matches Some(i) ==> forall|j: int| 0 <= j < s.len() && j != i ==> s[j].0@ != id,
{
    lemma_index_of(s, id);
}

/// An instance that was just added is the one found under its id, and keys stay unique.
pub proof fn law_added_instance_is_found<H>(s: Seq<Entry<H>>, inst: BrowserInstance<H>)
    requires
        distinct_keys(s),
    ensures
        lookup(added(s, inst), inst.id@) == Some(inst),
        distinct_keys(added(s, inst)),
{
    lemma_index_of(s, inst.id@);
    lemma_unique_index(s, inst.id@);
    let t = added(s, inst);
    match index_of(s, inst.id@) {
        Some(i) => {
            assert forall|a: int, b: int| 0 <= a < b < t.len() implies t[a].0@ != t[b].0@ by {
                assert(t[a].0 == s[a].0 && t[b].0 == s[b].0);
            }
        },
        None => {
            assert forall|a: int, b: int| 0 <= a < b < t.len() implies t[a].0@ != t[b].0@ by {
                if b == s.len() {
                } else {
                    assert(t[a] == s[a] && t[b] == s[b]);
                }
            }
        },
    }
    lemma_index_of(t, inst.id@);
    lemma_unique_index(t, inst.id@);
    let pos = match index_of(s, inst.id@) {
        Some(i) => i,
        None => s.len() as int,
    };
    assert(t[pos].1 == inst);
    assert(t[pos].0@ == inst.id@);
}

/// Adding an instance leaves what is found under every other id as it was.
pub proof fn law_add_keeps_others<H>(s: Seq<Entry<H>>, inst: BrowserInstance<H>, other: Seq<char>)
    requires
        distinct_keys(s),
        other != inst.id@,
    ensures
        lookup(added(s, inst), other) == lookup(s, other),
{
    law_added_instance_is_found(s, inst);
    let t = added(s, inst);
    lemma_index_of(s, other);
    lemma_index_of(t, other);
    lemma_index_of(s, inst.id@);
    lemma_unique_index(s, other);
    lemma_unique_index(t, other);
    match index_of(s, other) {
        Some(i) => {
            assert(t[i] == s[i]);
        },
        None => {
            if let Some(j) = index_of(t, other) {
                if j < s.len() {
                    assert(t[j].0 == s[j].0);
                }
            }
        },
    }
}

/// A destroyed instance is found no more, and keys stay unique.
pub proof fn law_destroyed_instance_is_gone<H>(s: Seq<Entry<H>>, id: Seq<char>)
    requires
        distinct_keys(s),
    ensures
        lookup(removed(s, id), id) is None,
        distinct_keys(removed(s, id)),
{
    lemma_index_of(s, id);
    lemma_unique_index(s, id);
    let t = removed(s, id);
    match index_of(s, id) {
        Some(i) => {
            assert forall|j: int| 0 <= j < t.len() implies t[j].0@ != id by {
                if j < i {
                    assert(t[j] == s[j]);
                } else {
                    assert(t[j] == s[j + 1]);
                }
            }
            assert forall|a: int, b: int| 0 <= a < b < t.len() implies t[a].0@ != t[b].0@ by {
                let oa = if a < i { a } else { a + 1 };
                let ob = if b < i { b } else { b + 1 };
                assert(t[a] == s[oa]);
                assert(t[b] == s[ob]);
            }
        },
        None => {},
    }
    lemma_index_of(t, id);
}

/// Destroying an id that no instance has changes nothing; so destroying twice is the
/// same as destroying once, and the second time answers "not found".
pub proof fn law_destroy_twice<H>(s: Seq<Entry<H>>, id: Seq<char>)
    requires
        distinct_keys(s),
    ensures
        lookup(removed(s, id), id) is None,
        removed(removed(s, id), id) == removed(s, id),
{
    law_destroyed_instance_is_gone(s, id);
}

} // verus!
