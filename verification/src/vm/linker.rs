//! Links loaded modules into one program with a function table.
use vstd::prelude::*;
use crate::vm::ir::{ModuleRef, ModuleV, FunctionV, functions_v};

verus! {

/// The position of a function: its module and its index in that module.
#[derive(Debug, Clone, Copy, PartialEq, Eq, Structural)]
pub struct FunctionRef {
    pub module_index: usize,
    pub function_index: usize,
}

/// Linked modules and the table from function names to their positions.
#[derive(Debug)]
pub struct LinkedProgram {
    pub modules: Vec<ModuleRef>,
    pub functions: Vec<(String, FunctionRef)>,
}

pub struct LinkedV {
    pub modules: Seq<ModuleV>,
    pub functions: Seq<(Seq<char>, FunctionRef)>,
}

/// Why linking failed: two definitions of one function name.
#[derive(Debug)]
pub enum LinkError {
    DuplicateFunction(String),
}

pub open spec fn entries_v(s: Seq<(String, FunctionRef)>) -> Seq<(Seq<char>, FunctionRef)> {
    s.map_values(|e: (String, FunctionRef)| (e.0@, e.1))
}

pub open spec fn modules_v(s: Seq<ModuleRef>) -> Seq<ModuleV> {
    s.map_values(|m: ModuleRef| m@)
}

impl View for LinkedProgram {
    type V = LinkedV;

    open spec fn view(&self) -> LinkedV {
        LinkedV { modules: modules_v(self.modules@), functions: entries_v(self.functions@) }
    }
}

/// The table entries of one module's functions.
pub open spec fn module_entries(fs: Seq<FunctionV>, m: int) -> Seq<(Seq<char>, FunctionRef)> {
    Seq::new(fs.len(), |f: int| (fs[f].name, FunctionRef { module_index: m as usize, function_index: f as usize }))
}

/// The table entries of all modules, module by module, each in definition order.
pub open spec fn all_entries(ms: Seq<ModuleV>) -> Seq<(Seq<char>, FunctionRef)>
    decreases ms.len(),
{
    if ms.len() == 0 {
        seq![]
    } else {
        all_entries(ms.drop_last()) + module_entries(ms.last().functions, ms.len() - 1)
    }
}

pub open spec fn entry_names(es: Seq<(Seq<char>, FunctionRef)>) -> Seq<Seq<char>> {
    es.map_values(|e: (Seq<char>, FunctionRef)| e.0)
}

/// The first entry (from index `k` on) whose name an earlier entry has.
pub open spec fn first_duplicate(es: Seq<(Seq<char>, FunctionRef)>, k: int) -> Option<Seq<char>>
    decreases es.len() - k,
{
    if k < 0 || k >= es.len() {
        None
    } else if entry_names(es.take(k)).contains(es[k].0) {
        Some(es[k].0)
    } else {
        first_duplicate(es, k + 1)
    }
}

/// The position of the function named `n` in a table.
pub open spec fn lookup_ref(es: Seq<(Seq<char>, FunctionRef)>, n: Seq<char>) -> Option<FunctionRef>
    decreases es.len(),
{
    if es.len() == 0 {
        None
    } else if es.last().0 == n {
        Some(es.last().1)
    } else {
        lookup_ref(es.drop_last(), n)
    }
}

/// Linking succeeds when no function name is defined twice; the table then
/// lists every function.  Otherwise the error names the first repeated
/// definition, in module order.
pub open spec fn spec_link(ms: Seq<ModuleV>) -> Result<Seq<(Seq<char>, FunctionRef)>, Seq<char>> {
    match first_duplicate(all_entries(ms), 0) {
        Some(n) => Err(n),
        None => Ok(all_entries(ms)),
    }
}

/// Links modules: builds the function table; see `spec_link`.
pub fn link_modules(modules: Vec<ModuleRef>) -> (r: Result<LinkedProgram, LinkError>)
    ensures
        match spec_link(modules_v(modules@)) {
            Ok(es) => r is Ok && r->Ok_0.modules == modules && r->Ok_0@.functions == es,
            Err(n) => r matches Err(LinkError::DuplicateFunction(x)) && x@ == n,
        },
{
    let ghost ms = modules_v(modules@);
    let mut entries: Vec<(String, FunctionRef)> = Vec::new();
    let mut m: usize = 0;
    while m < modules.len()
        invariant
            m <= modules@.len(),
            ms == modules_v(modules@),
            entries_v(entries@) == all_entries(ms.take(m as int)),
        decreases modules@.len() - m,
    {
        let fs = &modules[m].module.functions;
        let ghost base = entries_v(entries@);
        let ghost fv = functions_v(fs@);
        let mut f: usize = 0;
        while f < fs.len()
            invariant
                f <= fs@.len(),
                m < modules@.len(),
                fs == modules@[m as int].module.functions,
                fv == functions_v(fs@),
                entries_v(entries@) =~= base + module_entries(fv, m as int).take(f as int),
            decreases fs@.len() - f,
        {
            let ghost before = entries@;
            assert(fv[f as int].name == fs@[f as int].name@);
            let e = (fs[f].name.clone(), FunctionRef { module_index: m, function_index: f });
            entries.push(e);
            proof {
                assert(entries_v(entries@) =~= entries_v(before).push((e.0@, e.1)));
                assert(module_entries(fv, m as int).take(f + 1) =~= module_entries(fv, m as int).take(f as int).push((e.0@, e.1)));
            }
            f = f + 1;
        }
        proof {
            assert(module_entries(fv, m as int).take(f as int) =~= module_entries(fv, m as int));
            assert(ms.take(m + 1).drop_last() =~= ms.take(m as int));
            assert(ms.take(m + 1).last() == ms[m as int]);
        }
        m = m + 1;
    }
    assert(ms.take(m as int) =~= ms);
    let ghost es = all_entries(ms);
    let mut functions: Vec<(String, FunctionRef)> = Vec::new();
    let mut k: usize = 0;
    while k < entries.len()
        invariant
            k <= entries@.len(),
            es == entries_v(entries@),
            es == all_entries(modules_v(modules@)),
            es.len() == entries@.len(),
            entries_v(functions@) =~= es.take(k as int),
            first_duplicate(es, 0) == first_duplicate(es, k as int),
        decreases entries@.len() - k,
    {
        let mut dup = false;
        let mut j: usize = 0;
        while j < functions.len()
            invariant
                j <= functions@.len(),
                k < entries@.len(),
                es == entries_v(entries@),
                entries_v(functions@) =~= es.take(k as int),
                dup == exists|i: int| 0 <= i < j && #[trigger] functions@[i].0@ == entries@[k as int].0@,
            decreases functions@.len() - j,
        {
            if functions[j].0 == entries[k].0 {
                dup = true;
            }
            j = j + 1;
        }
        proof {
            if dup {
                let i = choose|i: int| 0 <= i < j && #[trigger] functions@[i].0@ == entries@[k as int].0@;
                assert(entry_names(es.take(k as int))[i] == es[k as int].0);
                assert(entry_names(es.take(k as int)).contains(es[k as int].0));
            } else {
                assert forall|i: int| 0 <= i < entry_names(es.take(k as int)).len() implies entry_names(es.take(k as int))[i] != es[k as int].0 by {
                    assert(entry_names(es.take(k as int))[i] == functions@[i].0@);
                }
            }
        }
        if dup {
            return Err(LinkError::DuplicateFunction(entries[k].0.clone()));
        }
        functions.push((entries[k].0.clone(), entries[k].1));
        k = k + 1;
        assert(entries_v(functions@) =~= es.take(k as int));
    }
    assert(es.take(k as int) =~= es);
    Ok(LinkedProgram { modules, functions })
}

/// Module and function counts that fit the positions of a table.
pub open spec fn counts_fit(ms: Seq<ModuleV>) -> bool {
    &&& ms.len() <= usize::MAX
    &&& forall|m: int| 0 <= m < ms.len() ==> (#[trigger] ms[m]).functions.len() <= usize::MAX
}

/// The entry at `k` has a name that no entry from `k` on repeats.
proof fn lemma_no_duplicate(es: Seq<(Seq<char>, FunctionRef)>, k: int)
    requires
        0 <= k,
        first_duplicate(es, k) is None,
    ensures
        forall|i: int, j: int| 0 <= i < j < es.len() && k <= j ==> es[i].0 != es[j].0,
    decreases es.len() - k,
{
    if k < es.len() {
        lemma_no_duplicate(es, k + 1);
        assert forall|i: int| 0 <= i < k implies es[i].0 != es[k].0 by {
            assert(entry_names(es.take(k))[i] == es[i].0);
        }
    }
}

/// In a table without repeated names, a name is found at its entry.
proof fn lemma_lookup_unique(es: Seq<(Seq<char>, FunctionRef)>, k: int)
    requires
        0 <= k < es.len(),
        forall|i: int, j: int| 0 <= i < j < es.len() ==> es[i].0 != es[j].0,
    ensures
        lookup_ref(es, es[k].0) == Some(es[k].1),
    decreases es.len(),
{
    if k < es.len() - 1 {
        assert(es.last().0 != es[k].0);
        lemma_lookup_unique(es.drop_last(), k);
    }
}

/// Every entry of the table points at a function of its name.
proof fn lemma_entries_valid(ms: Seq<ModuleV>)
    requires
        counts_fit(ms),
    ensures
        forall|k: int| 0 <= k < all_entries(ms).len() ==> {
            let e = #[trigger] all_entries(ms)[k];
            &&& e.1.module_index < ms.len()
            &&& e.1.function_index < ms[e.1.module_index as int].functions.len()
            &&& ms[e.1.module_index as int].functions[e.1.function_index as int].name == e.0
        },
    decreases ms.len(),
{
    if ms.len() > 0 {
        let init = ms.drop_last();
        assert(counts_fit(init)) by {
            assert forall|m: int| 0 <= m < init.len() implies (#[trigger] init[m]).functions.len() <= usize::MAX by {
                assert(init[m] == ms[m]);
            }
        }
        lemma_entries_valid(init);
        let a = all_entries(init);
        let last = ms.last();
        assert(last.functions.len() <= usize::MAX) by {
            assert(ms[ms.len() - 1] == last);
        }
        assert forall|k: int| 0 <= k < all_entries(ms).len() implies {
            let e = #[trigger] all_entries(ms)[k];
            &&& e.1.module_index < ms.len()
            &&& e.1.function_index < ms[e.1.module_index as int].functions.len()
            &&& ms[e.1.module_index as int].functions[e.1.function_index as int].name == e.0
        } by {
            if k < a.len() {
                assert(all_entries(ms)[k] == a[k]);
                let e = a[k];
                assert(ms[e.1.module_index as int] == init[e.1.module_index as int]);
            } else {
                let f = k - a.len();
                assert(all_entries(ms)[k] == module_entries(last.functions, ms.len() - 1)[f]);
            }
        }
    }
}

/// Every function of every module has an entry in the table.
proof fn lemma_entry_of(ms: Seq<ModuleV>, m: int, f: int) -> (k: int)
    requires
        counts_fit(ms),
        0 <= m < ms.len(),
        0 <= f < ms[m].functions.len(),
    ensures
        0 <= k < all_entries(ms).len(),
        all_entries(ms)[k] == (ms[m].functions[f].name, FunctionRef { module_index: m as usize, function_index: f as usize }),
    decreases ms.len(),
{
    let init = ms.drop_last();
    let a = all_entries(init);
    if m == ms.len() - 1 {
        a.len() + f
    } else {
        assert(counts_fit(init)) by {
            assert forall|i: int| 0 <= i < init.len() implies (#[trigger] init[i]).functions.len() <= usize::MAX by {
                assert(init[i] == ms[i]);
            }
        }
        assert(init[m] == ms[m]);
        let k = lemma_entry_of(init, m, f);
        assert(all_entries(ms)[k] == a[k]);
        k
    }
}

/// After a successful link, the table sends the name of every function of
/// every module to that function's own position.
pub proof fn law_link_finds_every_function(ms: Seq<ModuleV>, m: int, f: int)
    requires
        counts_fit(ms),
        spec_link(ms) is Ok,
        0 <= m < ms.len(),
        0 <= f < ms[m].functions.len(),
    ensures
        lookup_ref(spec_link(ms)->Ok_0, ms[m].functions[f].name)
            == Some(FunctionRef { module_index: m as usize, function_index: f as usize }),
{
    let es = all_entries(ms);
    lemma_no_duplicate(es, 0);
    let k = lemma_entry_of(ms, m, f);
    lemma_lookup_unique(es, k);
}

/// After a successful link, every entry of the table points at a function
/// of the program that bears the entry's name, and no name has two entries.
pub proof fn law_link_table_sound(ms: Seq<ModuleV>)
    requires
        counts_fit(ms),
        spec_link(ms) is Ok,
    ensures
        forall|k: int| 0 <= k < spec_link(ms)->Ok_0.len() ==> {
            let e = #[trigger] spec_link(ms)->Ok_0[k];
            &&& e.1.module_index < ms.len()
            &&& e.1.function_index < ms[e.1.module_index as int].functions.len()
            &&& ms[e.1.module_index as int].functions[e.1.function_index as int].name == e.0
        },
        forall|i: int, j: int| 0 <= i < j < spec_link(ms)->Ok_0.len()
            ==> spec_link(ms)->Ok_0[i].0 != spec_link(ms)->Ok_0[j].0,
{
    lemma_entries_valid(ms);
    lemma_no_duplicate(all_entries(ms), 0);
}

} // verus!
