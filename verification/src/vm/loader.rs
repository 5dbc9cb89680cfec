//! Loads the entry module and its dependencies from their texts.
use vstd::prelude::*;
use crate::vm::ir::{ModuleRef, ModuleV};
use crate::vm::reader::{IrErr, IrParseError, spec_parse_module};

verus! {

/// Reads the entry module and then each dependency, in order; the first
/// text that cannot be read gives the error, with its position (0 for the
/// entry, `i + 1` for dependency `i`).
pub fn load_modules(entry: &str, deps: &[String]) -> (r: Result<Vec<ModuleRef>, (usize, IrParseError)>)
    ensures
        match r {
            Ok(ms) => ms@.len() == deps@.len() + 1
                && ms@[0]@ == spec_parse_module(entry@)->Ok_0
                && spec_parse_module(entry@) is Ok
                && forall|i: int| 0 <= i < deps@.len() ==>
                    spec_parse_module(#[trigger] deps@[i]@) is Ok
                    && ms@[i + 1]@ == spec_parse_module(deps@[i]@)->Ok_0,
            Err((k, e)) => k <= deps@.len()
                && (if k == 0 { spec_parse_module(entry@) == Err::<ModuleV, IrErr>(e@) }
                    else { spec_parse_module(entry@) is Ok
                        && spec_parse_module(deps@[k - 1]@) == Err::<ModuleV, IrErr>(e@) })
                && forall|i: int| 0 <= i < k - 1 ==> spec_parse_module(#[trigger] deps@[i]@) is Ok,
        },
{
    let mut modules: Vec<ModuleRef> = Vec::new();
    match ModuleRef::from_ll_text(entry) {
        Ok(m) => modules.push(m),
        Err(e) => {
            return Err((0, e));
        },
    }
    let mut i: usize = 0;
    while i < deps.len()
        invariant
            i <= deps@.len(),
            modules@.len() == i + 1,
            spec_parse_module(entry@) is Ok,
            modules@[0]@ == spec_parse_module(entry@)->Ok_0,
            forall|j: int| 0 <= j < i ==>
                spec_parse_module(#[trigger] deps@[j]@) is Ok
                && modules@[j + 1]@ == spec_parse_module(deps@[j]@)->Ok_0,
        decreases deps@.len() - i,
    {
        match ModuleRef::from_ll_text(deps[i].as_str()) {
            Ok(m) => modules.push(m),
            Err(e) => {
                return Err((i + 1, e));
            },
        }
        i = i + 1;
    }
    Ok(modules)
}

} // verus!
