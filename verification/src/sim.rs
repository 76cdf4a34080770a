//! The simulated bench: modules with no radio, whose state the simulator
//! keeps so that a scenario can be played and tested without boards.

use vstd::prelude::*;
use vstd::string::*;
use crate::link::ModuleId;
use crate::proto::{Command, Descriptor, Role, PROTOCOL_VERSION};
use crate::table::{distinct_ids, insert, lemma_lookup_after_set, lemma_lookup_at, lemma_lookup_found, lookup, position};
use crate::text::{decimal, push_decimal};

verus! {

/// What a simulated button module with these channels claims to be.
pub open spec fn button_spec(inputs: u8, outputs: u8) -> Descriptor {
    Descriptor { protocol: PROTOCOL_VERSION, role: Role::Button, inputs, outputs }
}

/// What a simulated coin acceptor claims to be.
pub open spec fn coin_spec() -> Descriptor {
    Descriptor { protocol: PROTOCOL_VERSION, role: Role::Coin, inputs: 1, outputs: 0 }
}

/// What a simulated button module claims to be.
pub fn button(inputs: u8, outputs: u8) -> (descriptor: Descriptor)
    ensures
        descriptor == button_spec(inputs, outputs),
{
    Descriptor { protocol: PROTOCOL_VERSION, role: Role::Button, inputs, outputs }
}

/// What a simulated coin acceptor claims to be: one input (the pulse line),
/// no outputs.
pub fn coin() -> (descriptor: Descriptor)
    ensures
        descriptor == coin_spec(),
{
    Descriptor { protocol: PROTOCOL_VERSION, role: Role::Coin, inputs: 1, outputs: 0 }
}


/// A fake module's state: what it claims to be, and what its outputs are
/// doing.
#[derive(Debug, Clone)]
pub struct SimModule {
    pub descriptor: Descriptor,
    pub outputs: Vec<bool>,
}

/// Every output of `outputs` switched off.
pub open spec fn all_off(n: nat) -> Seq<bool> {
    Seq::new(n, |i: int| false)
}

/// A module in its boot state: every output off.
fn boot(descriptor: Descriptor) -> (module: SimModule)
    ensures
        module.descriptor == descriptor,
        module.outputs@ == all_off(descriptor.outputs as nat),
{
    let mut outputs: Vec<bool> = Vec::new();
    let mut i: u8 = 0;
    while i < descriptor.outputs
        invariant
            i <= descriptor.outputs,
            outputs@ == all_off(i as nat),
        decreases descriptor.outputs - i,
    {
        outputs.push(false);
        i += 1;
    }
    SimModule { descriptor, outputs }
}

/// Why a simulated module refused a command.
#[derive(Debug)]
pub enum SimError {
    /// There is no simulated module by that id.
    NoSuchModule { id: ModuleId },
    /// The module has `outputs` outputs, so `channel` does not exist.
    NoSuchOutput { id: ModuleId, outputs: usize, channel: u8 },
}

/// How a [`SimError`] is reported.
pub open spec fn sim_error_text(e: SimError) -> Seq<char> {
    match e {
        SimError::NoSuchModule { id } => "no simulated module "@ + id@,
        SimError::NoSuchOutput { id, outputs, channel } =>
            "module "@ + id@ + " has "@ + decimal(outputs as nat) + " output(s), cannot set channel "@
                + decimal(channel as nat),
    }
}

impl SimError {
    /// The sentence this error is reported with.
    pub fn message(&self) -> (text: String)
        ensures
            text@ == sim_error_text(*self),
    {
        match self {
            SimError::NoSuchModule { id } => {
                let mut s = String::from_str("no simulated module ");
                s.append(id.as_str());
                s
            },
            SimError::NoSuchOutput { id, outputs, channel } => {
                let mut s = String::from_str("module ");
                s.append(id.as_str());
                s.append(" has ");
                push_decimal(&mut s, *outputs as u64);
                s.append(" output(s), cannot set channel ");
                push_decimal(&mut s, *channel as u64);
                s
            },
        }
    }
}

/// The descriptor the last entry of `specs` named `id` gives, if any does.
pub open spec fn last_described(specs: Seq<(ModuleId, Descriptor)>, id: Seq<char>) -> Option<Descriptor>
    decreases specs.len(),
{
    if specs.len() == 0 {
        None
    } else if specs.last().0@ == id {
        Some(specs.last().1)
    } else {
        last_described(specs.drop_last(), id)
    }
}

/// The state behind the simulated link: every fake module, the ids a
/// scenario asked for, and every command the modules were sent, in order.
pub struct SimBench {
    ids: Vec<ModuleId>,
    modules: Vec<(ModuleId, SimModule)>,
    history: Vec<(ModuleId, Command)>,
}

impl SimBench {
    /// The ids handed to the scenario on acquisition, in order.
    pub closed spec fn id_list(&self) -> Seq<ModuleId> {
        self.ids@
    }

    /// The module named `id`, if there is one.
    pub closed spec fn module(&self, id: Seq<char>) -> Option<SimModule> {
        lookup(self.modules@, id)
    }

    /// The modules in table order.
    pub closed spec fn table(&self) -> Seq<(ModuleId, SimModule)> {
        self.modules@
    }

    /// Every command sent so far, with the module it was sent to.
    pub closed spec fn sent(&self) -> Seq<(ModuleId, Command)> {
        self.history@
    }

    /// One entry per module, and every acquired id names a module.
    pub closed spec fn wf(&self) -> bool {
        &&& distinct_ids(self.modules@)
        &&& forall|i: int| 0 <= i < self.ids@.len() ==> (#[trigger] lookup(self.modules@, self.ids@[i]@)) is Some
    }

    /// Whether output `channel` of module `id` is on.
    pub open spec fn lit(&self, id: Seq<char>, channel: u8) -> Option<bool> {
        match self.module(id) {
            Some(m) => if (channel as int) < m.outputs@.len() { Some(m.outputs@[channel as int]) } else { None },
            None => None,
        }
    }

    /// A bench of the modules in `specs`, each in its boot state; a repeated
    /// id keeps the last descriptor given for it.
    pub fn new(specs: Vec<(ModuleId, Descriptor)>) -> (bench: SimBench)
        ensures
            bench.wf(),
            bench.id_list().len() == specs@.len(),
            forall|i: int| 0 <= i < specs@.len() ==> (#[trigger] bench.id_list()[i])@ == specs@[i].0@,
            forall|i: int| 0 <= i < specs@.len() ==> (#[trigger] bench.module(specs@[i].0@)) is Some,
            forall|id: Seq<char>| #[trigger] bench.module(id) matches Some(m) ==> m.outputs@ == all_off(m.descriptor.outputs as nat),
            forall|id: Seq<char>| #[trigger] bench.module(id) is Some <==> last_described(specs@, id) is Some,
            forall|id: Seq<char>| #[trigger] bench.module(id) matches Some(m) ==> last_described(specs@, id) == Some(m.descriptor),
            bench.sent().len() == 0,
    {
        let mut ids: Vec<ModuleId> = Vec::new();
        let mut modules: Vec<(ModuleId, SimModule)> = Vec::new();
        let mut i: usize = 0;
        while i < specs.len()
            invariant
                i <= specs@.len(),
                ids@.len() == i,
                distinct_ids(modules@),
                forall|k: int| 0 <= k < i ==> (#[trigger] ids@[k])@ == specs@[k].0@,
                forall|k: int| 0 <= k < i ==> (#[trigger] lookup(modules@, specs@[k].0@)) is Some,
                forall|id: Seq<char>| #[trigger] lookup(modules@, id) matches Some(m)
                    ==> m.outputs@ == all_off(m.descriptor.outputs as nat),
                forall|id: Seq<char>| #[trigger] lookup(modules@, id) is Some <==> last_described(specs@.take(i as int), id) is Some,
                forall|id: Seq<char>| #[trigger] lookup(modules@, id) matches Some(m)
                    ==> last_described(specs@.take(i as int), id) == Some(m.descriptor),
            decreases specs@.len() - i,
        {
            let (id, descriptor) = (&specs[i].0, specs[i].1);
            ids.push(id.duplicate());
            insert(&mut modules, id.duplicate(), boot(descriptor));
            assert(specs@.take(i + 1).drop_last() == specs@.take(i as int));
            assert(specs@.take(i + 1).last() == specs@[i as int]);
            i += 1;
        }
        assert(specs@.take(specs@.len() as int) == specs@);
        let bench = SimBench { ids, modules, history: Vec::new() };
        assert forall|k: int| 0 <= k < bench.ids@.len() implies (#[trigger] lookup(bench.modules@, bench.ids@[k]@)) is Some by {
            assert(bench.ids@[k]@ == specs@[k].0@);
        }
        bench
    }

    /// The ids handed to the scenario on acquisition, in order.
    pub fn ids(&self) -> (ids: &Vec<ModuleId>)
        ensures
            ids@ == self.id_list(),
    {
        &self.ids
    }

    /// Everything the modules have been told to do, in order.
    pub fn history(&self) -> (history: &Vec<(ModuleId, Command)>)
        ensures
            history@ == self.sent(),
    {
        &self.history
    }

    /// Deliver one command to a simulated module.
    ///
    /// The command is recorded whether or not the module takes it.
    /// `SetOutput` drives one existing output, `Reset` turns every output
    /// off, and `Describe` answers with the descriptor to send back as a
    /// `Hello`.
    pub fn send(&mut self, id: &ModuleId, command: Command) -> (reply: Result<Option<Descriptor>, SimError>)
        requires
            old(self).wf(),
        ensures
            final(self).wf(),
            final(self).id_list() == old(self).id_list(),
            final(self).sent().len() == old(self).sent().len() + 1,
            final(self).sent().drop_last() == old(self).sent(),
            final(self).sent().last().0@ == id@,
            final(self).sent().last().1 == command,
            old(self).module(id@) is None ==> (reply matches Err(SimError::NoSuchModule { id: m }) && m@ == id@
                && forall|k: Seq<char>| #[trigger] final(self).module(k) == old(self).module(k)),
            old(self).module(id@) matches Some(m) ==> {
                &&& forall|k: Seq<char>| k != id@ ==> #[trigger] final(self).module(k) == old(self).module(k)
                &&& final(self).module(id@) matches Some(n) && n.descriptor == m.descriptor && match command {
                    Command::SetOutput { channel, on } =>
                        if (channel as int) < m.outputs@.len() {
                            reply == Ok::<Option<Descriptor>, SimError>(None)
                                && n.outputs@ == m.outputs@.update(channel as int, on)
                        } else {
                            (reply matches Err(SimError::NoSuchOutput { id: e, outputs, channel: c })
                                && e@ == id@ && outputs == m.outputs@.len() && c == channel)
                                && n.outputs@ == m.outputs@
                        },
                    Command::Reset => reply == Ok::<Option<Descriptor>, SimError>(None)
                        && n.outputs@ == all_off(m.outputs@.len()),
                    Command::Describe => reply == Ok::<Option<Descriptor>, SimError>(Some(m.descriptor))
                        && n.outputs@ == m.outputs@,
                }
            },
    {
        self.history.push((id.duplicate(), command));
        let i = match position(&self.modules, id) {
            None => return Err(SimError::NoSuchModule { id: id.duplicate() }),
            Some(i) => i,
        };
        let ghost before = self.modules@;
        let mut entry = self.modules.remove(i);
        let reply = match command {
            Command::SetOutput { channel, on } => {
                if (channel as usize) < entry.1.outputs.len() {
                    entry.1.outputs.set(channel as usize, on);
                    Ok(None)
                } else {
                    Err(SimError::NoSuchOutput { id: id.duplicate(), outputs: entry.1.outputs.len(), channel })
                }
            },
            Command::Reset => {
                let n = entry.1.outputs.len();
                let mut j: usize = 0;
                while j < n
                    invariant
                        n == entry.1.outputs@.len(),
                        entry.0 == before[i as int].0,
                        entry.1.descriptor == before[i as int].1.descriptor,
                        j <= n,
                        forall|k: int| 0 <= k < j ==> !#[trigger] entry.1.outputs@[k],
                    decreases n - j,
                {
                    entry.1.outputs.set(j, false);
                    j += 1;
                }
                assert(entry.1.outputs@ == all_off(n as nat));
                Ok(None)
            },
            Command::Describe => Ok(Some(entry.1.descriptor)),
        };
        assert(entry.0 == before[i as int].0);
        self.modules.insert(i, entry);
        proof {
            assert(self.modules@ == before.update(i as int, self.modules@[i as int]));
            lemma_lookup_after_set(before, i as int, self.modules@);
        }
        reply
    }

    /// Whether an output is currently on: is that LED lit?
    pub fn output(&self, id: &ModuleId, channel: u8) -> (on: Option<bool>)
        ensures
            on == self.lit(id@, channel),
    {
        match position(&self.modules, id) {
            None => None,
            Some(i) => {
                let outputs = &self.modules[i].1.outputs;
                if (channel as usize) < outputs.len() {
                    Some(outputs[channel as usize])
                } else {
                    None
                }
            },
        }
    }

    /// The module whose output `channel` is on, if exactly one is.
    pub fn only_lit(&self, channel: u8) -> (lit: Option<ModuleId>)
        requires
            self.wf(),
        ensures
            lit matches Some(id) ==> self.lit(id@, channel) == Some(true)
                && forall|k: Seq<char>| k != id@ ==> #[trigger] self.lit(k, channel) != Some(true),
            lit is None ==> forall|k: Seq<char>| #[trigger] self.lit(k, channel) == Some(true)
                ==> exists|j: Seq<char>| j != k && #[trigger] self.lit(j, channel) == Some(true),
    {
        let mut found: Option<usize> = None;
        let mut i: usize = 0;
        while i < self.modules.len()
            invariant
                distinct_ids(self.modules@),
                i <= self.modules@.len(),
                found matches Some(f) ==> f < i && on_at(self.modules@, f as int, channel)
                    && forall|k: int| 0 <= k < i && k != f ==> !on_at(self.modules@, k, channel),
                found is None ==> forall|k: int| 0 <= k < i ==> !on_at(self.modules@, k, channel),
            decreases self.modules@.len() - i,
        {
            let outputs = &self.modules[i].1.outputs;
            let on = (channel as usize) < outputs.len() && outputs[channel as usize];
            if on {
                if let Some(f) = found {
                    proof {
                        lemma_two_lit(self.modules@, f as int, i as int, channel);
                        self.lemma_lit_is_lit_in(channel);
                    }
                    return None;
                }
                found = Some(i);
            }
            i += 1;
        }
        match found {
            None => {
                proof {
                    lemma_none_lit(self.modules@, channel);
                    self.lemma_lit_is_lit_in(channel);
                }
                None
            },
            Some(f) => {
                proof {
                    lemma_only_entry_on(self.modules@, f as int, channel);
                    self.lemma_lit_is_lit_in(channel);
                }
                Some(self.modules[f].0.duplicate())
            },
        }
    }

    /// An output reads as on exactly when its module's entry has it on.
    proof fn lemma_lit_is_lit_in(&self, channel: u8)
        ensures
            forall|k: Seq<char>| #![trigger self.lit(k, channel)] #![trigger lit_in(self.modules@, k, channel)]
                (self.lit(k, channel) == Some(true)) == lit_in(self.modules@, k, channel),
    {
    }

    /// Return every module to its boot state, as a reconnect would: every
    /// output off.
    pub fn power_cycle(&mut self)
        requires
            old(self).wf(),
        ensures
            final(self).wf(),
            final(self).id_list() == old(self).id_list(),
            final(self).sent() == old(self).sent(),
            forall|k: Seq<char>| #[trigger] cycled_at(final(self).table(), old(self).table(), k),
            forall|k: Seq<char>| #[trigger] old(self).module(k) is Some ==> final(self).module(k) is Some,
    {
        let ghost original = self.modules@;
        let n = self.modules.len();
        let mut i: usize = 0;
        while i < n
            invariant
                n == self.modules@.len(),
                n == original.len(),
                i <= n,
                distinct_ids(original),
                forall|k: int| 0 <= k < n ==> (#[trigger] self.modules@[k]).0 == original[k].0
                    && self.modules@[k].1.descriptor == original[k].1.descriptor
                    && self.modules@[k].1.outputs@.len() == original[k].1.outputs@.len(),
                forall|k: int| 0 <= k < i ==> (#[trigger] self.modules@[k]).1.outputs@ == all_off(original[k].1.outputs@.len()),
                forall|k: int| i <= k < n ==> #[trigger] self.modules@[k] == original[k],
                self.ids@ == old(self).ids@,
                self.history@ == old(self).history@,
                forall|j: int| 0 <= j < self.ids@.len() ==> (#[trigger] lookup(original, self.ids@[j]@)) is Some,
            decreases n - i,
        {
            let ghost before = self.modules@;
            let mut entry = self.modules.remove(i);
            assert(entry == original[i as int]);
            let m = entry.1.outputs.len();
            let mut j: usize = 0;
            while j < m
                invariant
                    m == entry.1.outputs@.len(),
                    entry.0 == original[i as int].0,
                    entry.1.descriptor == original[i as int].1.descriptor,
                    m == original[i as int].1.outputs@.len(),
                    j <= m,
                    forall|k: int| 0 <= k < j ==> !#[trigger] entry.1.outputs@[k],
                decreases m - j,
            {
                entry.1.outputs.set(j, false);
                j += 1;
            }
            assert(entry.1.outputs@ == all_off(m as nat));
            self.modules.insert(i, entry);
            assert(self.modules@ == before.update(i as int, self.modules@[i as int]));
            i += 1;
        }
        proof {
            lemma_power_cycle(original, self.modules@);
        }
        assert forall|j: int| 0 <= j < self.ids@.len() implies (#[trigger] lookup(self.modules@, self.ids@[j]@)) is Some by {
            assert(lookup(original, self.ids@[j]@) is Some);
        }
    }

    /// The `Hello` every acquired module greets with on connect, in order.
    pub fn hellos(&self) -> (hellos: Vec<(ModuleId, Descriptor)>)
        requires
            self.wf(),
        ensures
            hellos@.len() == self.id_list().len(),
            forall|i: int| 0 <= i < hellos@.len() ==> (#[trigger] hellos@[i]).0@ == self.id_list()[i]@
                && (self.module(self.id_list()[i]@) matches Some(m) && hellos@[i].1 == m.descriptor),
    {
        let mut hellos: Vec<(ModuleId, Descriptor)> = Vec::new();
        let mut i: usize = 0;
        while i < self.ids.len()
            invariant
                self.wf(),
                i <= self.ids@.len(),
                hellos@.len() == i,
                forall|k: int| 0 <= k < i ==> (#[trigger] hellos@[k]).0@ == self.ids@[k]@
                    && (lookup(self.modules@, self.ids@[k]@) matches Some(m) && hellos@[k].1 == m.descriptor),
            decreases self.ids@.len() - i,
        {
            let id = &self.ids[i];
            assert(lookup(self.modules@, self.ids@[i as int]@) is Some);
            match position(&self.modules, id) {
                Some(p) => {
                    hellos.push((id.duplicate(), self.modules[p].1.descriptor));
                },
                None => {},
            }
            i += 1;
        }
        hellos
    }
}

/// After a power cycle nothing is lit: every output of every module is off,
/// as after a real reconnect.
pub proof fn law_a_power_cycle_leaves_every_output_off(before: SimBench, after: SimBench, id: Seq<char>, channel: u8)
    requires
        forall|k: Seq<char>| #[trigger] cycled_at(after.table(), before.table(), k),
    ensures
        after.lit(id, channel) != Some(true),
{
    assert(cycled_at(after.table(), before.table(), id));
}

/// An output reads back what it was last set to.
pub proof fn law_an_output_reads_back_what_was_set(
    before: SimBench,
    after: SimBench,
    id: Seq<char>,
    channel: u8,
    on: bool,
)
    requires
        before.module(id) matches Some(m) && (channel as int) < m.outputs@.len(),
        after.module(id) matches Some(n) && n.outputs@ == before.module(id)->0.outputs@.update(channel as int, on),
    ensures
        after.lit(id, channel) == Some(on),
{
}

/// Whether module `id` has output `channel` on.
pub open spec fn lit_in(entries: Seq<(ModuleId, SimModule)>, id: Seq<char>, channel: u8) -> bool {
    match lookup(entries, id) {
        Some(m) => (channel as int) < m.outputs@.len() && m.outputs@[channel as int],
        None => false,
    }
}

/// Whether the entry at `k` has output `channel` on.
pub open spec fn on_at(entries: Seq<(ModuleId, SimModule)>, k: int, channel: u8) -> bool {
    (channel as int) < entries[k].1.outputs@.len() && entries[k].1.outputs@[channel as int]
}

/// With one entry per module, the entry that is the only one lit is the
/// only module lit.
proof fn lemma_only_entry_on(entries: Seq<(ModuleId, SimModule)>, f: int, channel: u8)
    requires
        distinct_ids(entries),
        0 <= f < entries.len(),
        on_at(entries, f, channel),
        forall|k: int| 0 <= k < entries.len() && k != f ==> !on_at(entries, k, channel),
    ensures
        forall|id: Seq<char>| #[trigger] lit_in(entries, id, channel) ==> id == entries[f].0@,
        lit_in(entries, entries[f].0@, channel),
{
    lemma_lookup_at(entries, f);
    assert forall|id: Seq<char>| #[trigger] lit_in(entries, id, channel) implies id == entries[f].0@ by {
        let k = lemma_lookup_found(entries, id);
        assert(on_at(entries, k, channel));
    }
}

/// Two entries lit means two different modules lit.
proof fn lemma_two_lit(entries: Seq<(ModuleId, SimModule)>, f: int, i: int, channel: u8)
    requires
        distinct_ids(entries),
        0 <= f < i < entries.len(),
        on_at(entries, f, channel),
        on_at(entries, i, channel),
    ensures
        forall|k: Seq<char>| #[trigger] lit_in(entries, k, channel) ==> exists|j: Seq<char>| j != k && #[trigger] lit_in(entries, j, channel),
{
    lemma_lookup_at(entries, f);
    lemma_lookup_at(entries, i);
    let a = entries[f].0@;
    let b = entries[i].0@;
    assert forall|k: Seq<char>| #[trigger] lit_in(entries, k, channel) implies exists|j: Seq<char>| j != k && #[trigger] lit_in(entries, j, channel) by {
        if k == a {
            assert(lit_in(entries, b, channel));
        } else {
            assert(lit_in(entries, a, channel));
        }
    }
}

/// No entry lit means no module lit.
proof fn lemma_none_lit(entries: Seq<(ModuleId, SimModule)>, channel: u8)
    requires
        forall|k: int| 0 <= k < entries.len() ==> !on_at(entries, k, channel),
    ensures
        forall|id: Seq<char>| !#[trigger] lit_in(entries, id, channel),
{
    assert forall|id: Seq<char>| !#[trigger] lit_in(entries, id, channel) by {
        if lookup(entries, id) is Some {
            let k = lemma_lookup_found(entries, id);
            assert(!on_at(entries, k, channel));
        }
    }
}

/// Module `id` in `after` is module `id` of `original` with every output off.
pub open spec fn cycled_at(after: Seq<(ModuleId, SimModule)>, original: Seq<(ModuleId, SimModule)>, id: Seq<char>) -> bool {
    lookup(after, id) matches Some(n) ==> {
        &&& lookup(original, id) matches Some(m)
        &&& n.descriptor == m.descriptor
        &&& n.outputs@ == all_off(m.outputs@.len())
    }
}

/// Switching every output off, entry by entry, switches every module off.
proof fn lemma_power_cycle(original: Seq<(ModuleId, SimModule)>, after: Seq<(ModuleId, SimModule)>)
    requires
        after.len() == original.len(),
        forall|k: int| 0 <= k < after.len() ==> (#[trigger] after[k]).0 == original[k].0
            && after[k].1.descriptor == original[k].1.descriptor
            && after[k].1.outputs@ == all_off(original[k].1.outputs@.len()),
    ensures
        forall|id: Seq<char>| #[trigger] cycled_at(after, original, id),
        forall|id: Seq<char>| #[trigger] lookup(original, id) is Some ==> lookup(after, id) is Some,
    decreases original.len(),
{
    if original.len() > 0 {
        assert(after[0].0 == original[0].0);
        assert(after[0].1.descriptor == original[0].1.descriptor);
        assert(after[0].1.outputs@ == all_off(original[0].1.outputs@.len()));
        let a = after.drop_first();
        let o = original.drop_first();
        assert forall|k: int| 0 <= k < a.len() implies (#[trigger] a[k]).0 == o[k].0
            && a[k].1.descriptor == o[k].1.descriptor
            && a[k].1.outputs@ == all_off(o[k].1.outputs@.len()) by {
            assert(a[k] == after[k + 1] && o[k] == original[k + 1]);
        }
        lemma_power_cycle(o, a);
        assert forall|id: Seq<char>| #[trigger] cycled_at(after, original, id) by {
            if after[0].0@ != id {
                assert(lookup(after, id) == lookup(a, id));
                assert(lookup(original, id) == lookup(o, id));
                assert(cycled_at(a, o, id));
            } else {
                assert(lookup(after, id) == Some(after[0].1));
                assert(lookup(original, id) == Some(original[0].1));
            }
        }
        assert forall|id: Seq<char>| #[trigger] lookup(original, id) is Some implies lookup(after, id) is Some by {
            if after[0].0@ != id {
                assert(lookup(after, id) == lookup(a, id));
                assert(lookup(original, id) == lookup(o, id));
            }
        }
    }
}

} // verus!
