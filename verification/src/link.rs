//! What travels across the transport seam: which module, and what it said.

use vstd::prelude::*;
use vstd::string::*;
use crate::proto::Event;

verus! {

/// Which module. Stable across reconnects: it is the id the board was
/// flashed with, not a discovery index.
#[derive(Debug, Clone, Eq, Hash, PartialOrd, Ord)]
pub struct ModuleId(pub String);

impl View for ModuleId {
    type V = Seq<char>;

    open spec fn view(&self) -> Seq<char> {
        self.0@
    }
}

impl PartialEq for ModuleId {
    fn eq(&self, other: &Self) -> (same: bool) {
        self.0 == other.0
    }
}

impl vstd::std_specs::cmp::PartialEqSpecImpl for ModuleId {
    open spec fn obeys_eq_spec() -> bool {
        true
    }

    open spec fn eq_spec(&self, other: &Self) -> bool {
        self@ == other@
    }
}

impl ModuleId {
    /// The id of the board flashed with `name`.
    pub fn new(name: &str) -> (id: ModuleId)
        ensures
            id@ == name@,
    {
        ModuleId(String::from_str(name))
    }

    /// The id as text.
    pub fn as_str(&self) -> (text: &str)
        ensures
            text@ == self@,
    {
        self.0.as_str()
    }

    /// The id as an owned string, as it is printed.
    pub fn to_string(&self) -> (text: String)
        ensures
            text@ == self@,
    {
        self.0.clone()
    }

    /// A copy of this id.
    pub fn duplicate(&self) -> (copy: ModuleId)
        ensures
            copy@ == self@,
    {
        ModuleId(self.0.clone())
    }

    /// Whether two ids name the same module.
    pub fn same(&self, other: &ModuleId) -> (same: bool)
        ensures
            same == (self@ == other@),
    {
        self.0 == other.0
    }
}

/// Two lists of ids that name the same modules in the same order.
pub open spec fn same_ids(a: Seq<ModuleId>, b: Seq<ModuleId>) -> bool {
    a.len() == b.len() && forall|i: int| 0 <= i < a.len() ==> (#[trigger] a[i])@ == b[i]@
}

/// A copy of a list of ids.
pub fn copy_ids(ids: &Vec<ModuleId>) -> (copy: Vec<ModuleId>)
    ensures
        same_ids(copy@, ids@),
{
    let mut copy: Vec<ModuleId> = Vec::new();
    let mut j: usize = 0;
    while j < ids.len()
        invariant
            j <= ids@.len(),
            copy@.len() == j,
            forall|k: int| 0 <= k < j ==> (#[trigger] copy@[k])@ == ids@[k]@,
        decreases ids@.len() - j,
    {
        copy.push(ids[j].duplicate());
        j += 1;
    }
    copy
}

/// What the runtime hears from a module.
#[derive(Debug, Clone, Copy, PartialEq, Eq, Structural)]
pub enum ModuleEvent {
    /// The module said something.
    Message(Event),
    /// The module went away.
    Lost,
}

} // verus!
