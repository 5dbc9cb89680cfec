//! The memory of one function activation: named locals and stack slots.
use vstd::prelude::*;
use crate::vm::value::{Value, ValueV};

verus! {

/// Locals (SSA values) and stack slots (created by `alloca`), each by name.
#[derive(Debug)]
pub struct Memory {
    locals: Vec<(String, Value)>,
    slots: Vec<(String, Value)>,
}

/// The contents of a memory: a value for each defined local and slot name.
pub struct MemoryV {
    pub locals: Map<Seq<char>, ValueV>,
    pub slots: Map<Seq<char>, ValueV>,
}

/// The map that an association list denotes; a later entry for a name
/// hides an earlier one.
pub open spec fn assoc_map(s: Seq<(String, Value)>) -> Map<Seq<char>, ValueV>
    decreases s.len(),
{
    if s.len() == 0 {
        Map::empty()
    } else {
        assoc_map(s.drop_last()).insert(s.last().0@, s.last().1@)
    }
}

impl View for Memory {
    type V = MemoryV;

    closed spec fn view(&self) -> MemoryV {
        MemoryV { locals: assoc_map(self.locals@), slots: assoc_map(self.slots@) }
    }
}

/// The empty memory.
pub open spec fn mem_empty() -> MemoryV {
    MemoryV { locals: Map::empty(), slots: Map::empty() }
}

/// Defines or redefines a local.
pub open spec fn mem_set_local(m: MemoryV, name: Seq<char>, v: ValueV) -> MemoryV {
    MemoryV { locals: m.locals.insert(name, v), slots: m.slots }
}

/// Creates a slot holding `i32 0`, unless the slot exists already.
pub open spec fn mem_alloc_slot(m: MemoryV, name: Seq<char>) -> MemoryV {
    if m.slots.contains_key(name) {
        m
    } else {
        MemoryV { locals: m.locals, slots: m.slots.insert(name, ValueV::I32(0)) }
    }
}

/// Overwrites an existing slot; a store to an unknown slot changes nothing.
pub open spec fn mem_store_slot(m: MemoryV, name: Seq<char>, v: ValueV) -> MemoryV {
    if m.slots.contains_key(name) {
        MemoryV { locals: m.locals, slots: m.slots.insert(name, v) }
    } else {
        m
    }
}

/// The value of a local, if defined.
pub open spec fn mem_get_local(m: MemoryV, name: Seq<char>) -> Option<ValueV> {
    if m.locals.contains_key(name) { Some(m.locals[name]) } else { None }
}

/// The value of a slot, if it exists.
pub open spec fn mem_load_slot(m: MemoryV, name: Seq<char>) -> Option<ValueV> {
    if m.slots.contains_key(name) { Some(m.slots[name]) } else { None }
}

pub proof fn lemma_assoc_push(s: Seq<(String, Value)>, p: (String, Value))
    ensures
        assoc_map(s.push(p)) == assoc_map(s).insert(p.0@, p.1@),
{
    assert(s.push(p).drop_last() =~= s);
}

pub proof fn lemma_assoc_absent(s: Seq<(String, Value)>, k: Seq<char>)
    requires
        forall|j: int| 0 <= j < s.len() ==> (#[trigger] s[j]).0@ != k,
    ensures
        !assoc_map(s).contains_key(k),
    decreases s.len(),
{
    if s.len() > 0 {
        lemma_assoc_absent(s.drop_last(), k);
    }
}

pub proof fn lemma_assoc_last(s: Seq<(String, Value)>, i: int, k: Seq<char>)
    requires
        0 <= i < s.len(),
        s[i].0@ == k,
        forall|j: int| i < j < s.len() ==> (#[trigger] s[j]).0@ != k,
    ensures
        assoc_map(s).contains_key(k),
        assoc_map(s)[k] == s[i].1@,
    decreases s.len(),
{
    if i < s.len() - 1 {
        lemma_assoc_last(s.drop_last(), i, k);
    }
}

pub proof fn lemma_assoc_update(s: Seq<(String, Value)>, i: int, p: (String, Value))
    requires
        0 <= i < s.len(),
        s[i].0@ == p.0@,
        forall|j: int| i < j < s.len() ==> (#[trigger] s[j]).0@ != p.0@,
    ensures
        assoc_map(s.update(i, p)) == assoc_map(s).insert(p.0@, p.1@),
    decreases s.len(),
{
    let t = s.update(i, p);
    if i == s.len() - 1 {
        assert(t.drop_last() =~= s.drop_last());
        assert(assoc_map(t) =~= assoc_map(s).insert(p.0@, p.1@));
    } else {
        lemma_assoc_update(s.drop_last(), i, p);
        assert(t.drop_last() =~= s.drop_last().update(i, p));
        assert(assoc_map(t) =~= assoc_map(s).insert(p.0@, p.1@));
    }
}

/// The index of the last entry named `name`.
fn find_last(v: &Vec<(String, Value)>, name: &str) -> (r: Option<usize>)
    ensures
        r matches Some(i) ==> i < v@.len() && v@[i as int].0@ == name@ && forall|j: int|
            i < j < v@.len() ==> (#[trigger] v@[j]).0@ != name@,
        r is None ==> forall|j: int| 0 <= j < v@.len() ==> (#[trigger] v@[j]).0@ != name@,
{
    let key = String::from_str(name);
    let mut j: usize = v.len();
    while j > 0
        invariant
            j <= v@.len(),
            key@ == name@,
            forall|k: int| j <= k < v@.len() ==> (#[trigger] v@[k]).0@ != name@,
        decreases j,
    {
        if v[j - 1].0 == key {
            return Some(j - 1);
        }
        j = j - 1;
    }
    None
}

impl Default for Memory {
    fn default() -> (r: Memory)
        ensures
            r@ == mem_empty(),
    {
        let r = Memory { locals: Vec::new(), slots: Vec::new() };
        assert(r@.locals =~= Map::<Seq<char>, ValueV>::empty());
        assert(r@.slots =~= Map::<Seq<char>, ValueV>::empty());
        r
    }
}

impl Memory {
    /// Defines or redefines the local `name`.
    pub fn set_local(&mut self, name: &str, value: Value)
        ensures
            final(self)@ == mem_set_local(old(self)@, name@, value@),
    {
        let key = String::from_str(name);
        match find_last(&self.locals, name) {
            Some(i) => {
                proof {
                    lemma_assoc_update(self.locals@, i as int, (key, value));
                }
                self.locals.set(i, (key, value));
            },
            None => {
                proof {
                    lemma_assoc_push(self.locals@, (key, value));
                }
                self.locals.push((key, value));
            },
        }
    }

    /// The value of the local `name`, if defined.
    pub fn get_local(&self, name: &str) -> (r: Option<&Value>)
        ensures
            match mem_get_local(self@, name@) {
                Some(v) => r is Some && r->Some_0@ == v,
                None => r is None,
            },
    {
        match find_last(&self.locals, name) {
            Some(i) => {
                proof {
                    lemma_assoc_last(self.locals@, i as int, name@);
                }
                Some(&self.locals[i].1)
            },
            None => {
                proof {
                    lemma_assoc_absent(self.locals@, name@);
                }
                None
            },
        }
    }

    /// Creates the slot `name` holding `i32 0`, unless it exists.
    pub fn alloc_slot(&mut self, name: &str)
        ensures
            final(self)@ == mem_alloc_slot(old(self)@, name@),
    {
        match find_last(&self.slots, name) {
            Some(i) => {
                proof {
                    lemma_assoc_last(self.slots@, i as int, name@);
                }
            },
            None => {
                let key = String::from_str(name);
                proof {
                    lemma_assoc_absent(self.slots@, name@);
                    lemma_assoc_push(self.slots@, (key, Value::I32(0)));
                }
                self.slots.push((key, Value::I32(0)));
            },
        }
    }

    /// Overwrites the slot `name`; false (and no change) when there is none.
    pub fn store_slot(&mut self, name: &str, value: Value) -> (r: bool)
        ensures
            r == old(self)@.slots.contains_key(name@),
            final(self)@ == mem_store_slot(old(self)@, name@, value@),
    {
        match find_last(&self.slots, name) {
            Some(i) => {
                let key = String::from_str(name);
                proof {
                    lemma_assoc_last(self.slots@, i as int, name@);
                    lemma_assoc_update(self.slots@, i as int, (key, value));
                }
                self.slots.set(i, (key, value));
                true
            },
            None => {
                proof {
                    lemma_assoc_absent(self.slots@, name@);
                }
                false
            },
        }
    }

    /// The value of the slot `name`, if it exists.
    pub fn load_slot(&self, name: &str) -> (r: Option<Value>)
        ensures
            match mem_load_slot(self@, name@) {
                Some(v) => r is Some && r->Some_0@ == v,
                None => r is None,
            },
    {
        match find_last(&self.slots, name) {
            Some(i) => {
                proof {
                    lemma_assoc_last(self.slots@, i as int, name@);
                }
                Some(self.slots[i].1.copy())
            },
            None => {
                proof {
                    lemma_assoc_absent(self.slots@, name@);
                }
                None
            },
        }
    }
}

/// A local reads back as last written; other locals and every slot keep
/// their values.
pub proof fn law_local_read_after_write(m: MemoryV, name: Seq<char>, v: ValueV, other: Seq<char>)
    ensures
        mem_get_local(mem_set_local(m, name, v), name) == Some(v),
        other != name ==> mem_get_local(mem_set_local(m, name, v), other) == mem_get_local(m, other),
        mem_set_local(m, name, v).slots == m.slots,
{
}

/// A slot that allocation creates holds `i32 0`; allocating a slot that
/// exists keeps its value; locals and other slots are untouched.
pub proof fn law_alloc_slot(m: MemoryV, name: Seq<char>, other: Seq<char>)
    ensures
        mem_load_slot(mem_alloc_slot(m, name), name) == Some(match mem_load_slot(m, name) {
            Some(v) => v,
            None => ValueV::I32(0),
        }),
        other != name ==> mem_load_slot(mem_alloc_slot(m, name), other) == mem_load_slot(m, other),
        mem_alloc_slot(m, name).locals == m.locals,
{
}

/// A store to an allocated slot reads back; a store to a slot that was
/// never allocated changes nothing; other slots and locals are untouched.
pub proof fn law_slot_read_after_write(m: MemoryV, name: Seq<char>, v: ValueV, other: Seq<char>)
    ensures
        mem_load_slot(m, name) is Some ==> mem_load_slot(mem_store_slot(m, name, v), name) == Some(v),
        mem_load_slot(m, name) is None ==> mem_store_slot(m, name, v) == m,
        other != name ==> mem_load_slot(mem_store_slot(m, name, v), other) == mem_load_slot(m, other),
        mem_store_slot(m, name, v).locals == m.locals,
{
}

} // verus!
