//! The runtime's decisions: which events a scenario's wait delivers, which it
//! skips, what a queued press is worth once a round has started, and whether
//! a module can do what a scenario needs. Waiting itself (channels, clocks)
//! happens outside the verified core.

use vstd::prelude::*;
use vstd::string::*;
use crate::link::{ModuleEvent, ModuleId};
use crate::proto::{role_name, Descriptor, Event, Role, PROTOCOL_VERSION};
use crate::text::{decimal, push_decimal};
use crate::table::{distinct_ids, insert, lookup, position};

verus! {

/// Why a scenario's wait did not produce what it asked for.
#[derive(Debug, Clone)]
pub enum WaitError {
    /// Nothing happened within the timeout.
    Timeout,
    /// A module went away.
    ModuleLost(ModuleId),
    /// The runtime is shutting down.
    Closed,
}

/// The abstract value of a [`WaitError`]: the lost module by its id.
pub enum WaitErrorView {
    Timeout,
    ModuleLost(Seq<char>),
    Closed,
}

impl View for WaitError {
    type V = WaitErrorView;

    open spec fn view(&self) -> WaitErrorView {
        match self {
            WaitError::Timeout => WaitErrorView::Timeout,
            WaitError::ModuleLost(id) => WaitErrorView::ModuleLost(id@),
            WaitError::Closed => WaitErrorView::Closed,
        }
    }
}

/// How a [`WaitError`] is reported.
pub open spec fn wait_error_text(e: WaitErrorView) -> Seq<char> {
    match e {
        WaitErrorView::Timeout => "timed out"@,
        WaitErrorView::ModuleLost(id) => "module "@ + id + " was lost"@,
        WaitErrorView::Closed => "the runtime is shutting down"@,
    }
}

impl WaitError {
    /// The sentence this error is reported with.
    pub fn message(&self) -> (text: String)
        ensures
            text@ == wait_error_text(self@),
    {
        match self {
            WaitError::Timeout => String::from_str("timed out"),
            WaitError::ModuleLost(id) => {
                let mut s = String::from_str("module ");
                s.append(id.as_str());
                s.append(" was lost");
                s
            },
            WaitError::Closed => String::from_str("the runtime is shutting down"),
        }
    }

    /// Whether this is a timeout.
    pub fn is_timeout(&self) -> (timeout: bool)
        ensures
            timeout == (self@ is Timeout),
    {
        match self {
            WaitError::Timeout => true,
            _ => false,
        }
    }
}

/// One event off the link, and the module it came from.
pub type Incoming = (ModuleId, ModuleEvent);

/// What the next-event primitive hands a scenario for one incoming event: a
/// message, or [`WaitError::ModuleLost`] when the module went away.
pub fn deliver(incoming: Incoming) -> (delivered: Result<(ModuleId, Event), WaitError>)
    ensures
        incoming.1 == ModuleEvent::Lost ==> (delivered matches Err(WaitError::ModuleLost(id)) && id@ == incoming.0@),
        incoming.1 matches ModuleEvent::Message(e) ==> (delivered matches Ok((id, ev)) && id@ == incoming.0@ && ev == e),
{
    let (id, event) = incoming;
    match event {
        ModuleEvent::Lost => Err(WaitError::ModuleLost(id)),
        ModuleEvent::Message(event) => Ok((id, event)),
    }
}

/// The step of a filtered wait: keep waiting (`None`) or finish with a
/// result.
pub type Step<T> = Option<Result<T, WaitError>>;

/// Filter for the next press from any module: a press finishes the wait with
/// its module and channel, an error finishes it with the error, any other
/// message is skipped.
pub fn press_step(next: Result<(ModuleId, Event), WaitError>) -> (step: Step<(ModuleId, u8)>)
    ensures
        next matches Err(e) ==> (step matches Some(Err(e2)) && e2@ == e@),
        next matches Ok((id, Event::Pressed { channel })) ==> (
            step matches Some(Ok((id2, c))) && id2@ == id@ && c == channel),
        next matches Ok((_, ev)) && !(ev is Pressed) ==> step is None,
{
    match next {
        Err(e) => Some(Err(e)),
        Ok((from, Event::Pressed { channel })) => Some(Ok((from, channel))),
        Ok(_) => None,
    }
}

/// Filter for the next coin from any module: a coin finishes the wait with
/// its module and pulse count, an error finishes it, anything else is
/// skipped.
pub fn coin_step(next: Result<(ModuleId, Event), WaitError>) -> (step: Step<(ModuleId, u8)>)
    ensures
        next matches Err(e) ==> (step matches Some(Err(e2)) && e2@ == e@),
        next matches Ok((id, Event::Coin { channel, pulses })) ==> (
            step matches Some(Ok((id2, p))) && id2@ == id@ && p == pulses),
        next matches Ok((_, ev)) && !(ev is Coin) ==> step is None,
{
    match next {
        Err(e) => Some(Err(e)),
        Ok((from, Event::Coin { pulses, .. })) => Some(Ok((from, pulses))),
        Ok(_) => None,
    }
}

/// Filter for a press on one particular module: a press there finishes the
/// wait with its channel, a press elsewhere is skipped, an error finishes it.
pub fn press_on_step(target: &ModuleId, next: Result<(ModuleId, u8), WaitError>) -> (step: Step<u8>)
    ensures
        next matches Err(e) ==> (step matches Some(Err(e2)) && e2@ == e@),
        next matches Ok((from, channel)) ==> (
            if from@ == target@ { step == Some(Ok::<u8, WaitError>(channel)) } else { step is None }),
{
    match next {
        Err(e) => Some(Err(e)),
        Ok((from, channel)) => if from.same(target) {
            Some(Ok(channel))
        } else {
            None
        },
    }
}

/// Whether a queued item is a press.
pub open spec fn is_press(item: Incoming) -> bool {
    item.1 matches ModuleEvent::Message(Event::Pressed { .. })
}

/// The queue with every press taken out, everything else kept in order.
pub open spec fn without_presses(queue: Seq<Incoming>) -> Seq<Incoming> {
    queue.filter(|item: Incoming| !is_press(item))
}

/// Throw away every queued press and report how many there were. Only
/// presses are dropped: a loss queued behind them is kept, in order.
pub fn drop_presses(queue: &mut Vec<Incoming>) -> (dropped: usize)
    ensures
        final(queue)@ == without_presses(old(queue)@),
        dropped == old(queue)@.len() - final(queue)@.len(),
{
    let ghost original = queue@;
    let mut rest: Vec<Incoming> = Vec::new();
    std::mem::swap(&mut rest, queue);
    let mut kept: Vec<Incoming> = Vec::new();
    let mut dropped: usize = 0;
    let n = rest.len();
    let mut i: usize = 0;
    while i < n
        invariant
            n == original.len(),
            rest@ == original.subrange(i as int, n as int),
            i <= n,
            kept@ == without_presses(original.take(i as int)),
            dropped + kept@.len() == i,
        decreases n - i,
    {
        assert(original.take(i + 1).drop_last() == original.take(i as int));
        assert(original.take(i + 1).last() == original[i as int]);
        reveal_with_fuel(Seq::filter, 1);
        let item = rest.remove(0);
        assert(rest@ == original.subrange(i + 1, n as int));
        let press = match item.1 {
            ModuleEvent::Message(Event::Pressed { .. }) => true,
            _ => false,
        };
        if press {
            dropped += 1;
        } else {
            kept.push(item);
        }
        i += 1;
    }
    assert(original.take(n as int) == original);
    *queue = kept;
    dropped
}

/// Dropping the queued presses drops nothing else: no press is left, every
/// other queued event is kept, nothing new appears, and the queue never
/// grows.
pub proof fn law_dropping_presses_keeps_everything_else(queue: Seq<Incoming>)
    ensures
        without_presses(queue).len() <= queue.len(),
        forall|i: int| 0 <= i < without_presses(queue).len() ==> !is_press(#[trigger] without_presses(queue)[i]),
        forall|i: int| 0 <= i < queue.len() && !is_press(queue[i]) ==> #[trigger] without_presses(queue).contains(queue[i]),
        forall|item: Incoming| #[trigger] without_presses(queue).contains(item) ==> queue.contains(item),
{
    broadcast use vstd::seq_lib::group_filter_ensures;
    let keep = |item: Incoming| !is_press(item);
    assert forall|i: int| 0 <= i < without_presses(queue).len() implies !is_press(#[trigger] without_presses(queue)[i]) by {
        assert(keep(queue.filter(keep)[i]));
    }
    assert forall|i: int| 0 <= i < queue.len() && !is_press(queue[i]) implies #[trigger] without_presses(queue).contains(queue[i]) by {
        assert(keep(queue[i]));
    }
    assert forall|item: Incoming| #[trigger] without_presses(queue).contains(item) implies queue.contains(item) by {
        queue.lemma_filter_contains_rev(keep, item);
    }
}

/// What the `Hello` sweep collects while the modules introduce themselves:
/// each module's descriptor, and every other event, held back in order for
/// the scenario.
pub struct HelloSweep {
    descriptors: Vec<(ModuleId, Descriptor)>,
    deferred: Vec<Incoming>,
}

impl HelloSweep {
    /// The descriptors collected so far.
    pub closed spec fn entries(&self) -> Seq<(ModuleId, Descriptor)> {
        self.descriptors@
    }

    /// The events held back so far, in arrival order.
    pub closed spec fn held(&self) -> Seq<Incoming> {
        self.deferred@
    }

    /// Nothing collected yet.
    pub fn new() -> (sweep: HelloSweep)
        ensures
            sweep.entries().len() == 0,
            sweep.held().len() == 0,
    {
        HelloSweep { descriptors: Vec::new(), deferred: Vec::new() }
    }

    /// Whether the sweep should keep listening: fewer modules have
    /// introduced themselves than were acquired.
    pub fn wants_more(&self, acquired: usize) -> (more: bool)
        ensures
            more == (self.entries().len() < acquired),
    {
        self.descriptors.len() < acquired
    }

    /// Take one event: a `Hello` records (or replaces) that module's
    /// descriptor; anything else is held back for the scenario.
    pub fn offer(&mut self, incoming: Incoming)
        requires
            distinct_ids(old(self).entries()),
        ensures
            distinct_ids(final(self).entries()),
            offered(*old(self), *final(self), incoming),
    {
        match incoming.1 {
            ModuleEvent::Message(Event::Hello(d)) => {
                insert(&mut self.descriptors, incoming.0, d);
            },
            _ => {
                self.deferred.push(incoming);
            },
        }
    }

    /// Hand the held-back events over, in order.
    pub fn into_parts(self) -> (parts: (Vec<(ModuleId, Descriptor)>, Vec<Incoming>))
        ensures
            parts.0@ == self.entries(),
            parts.1@ == self.held(),
    {
        (self.descriptors, self.deferred)
    }
}

/// Whether a queued item is a module introducing itself.
pub open spec fn is_hello(item: Incoming) -> bool {
    item.1 matches ModuleEvent::Message(Event::Hello(_))
}

/// What offering `incoming` does to a sweep: a `Hello` records (or
/// replaces) that module's descriptor and holds nothing back; anything else
/// is held back, after what was held before, and records nothing.
pub open spec fn offered(before: HelloSweep, after: HelloSweep, incoming: Incoming) -> bool {
    &&& incoming.1 matches ModuleEvent::Message(Event::Hello(d)) ==> {
        &&& after.held() == before.held()
        &&& after.entries().len() == before.entries().len()
            + (if lookup(before.entries(), incoming.0@) is Some { 0int } else { 1int })
        &&& forall|id: Seq<char>| #[trigger] lookup(after.entries(), id)
            == if id == incoming.0@ { Some(d) } else { lookup(before.entries(), id) }
    }
    &&& !is_hello(incoming) ==> {
        &&& after.entries() == before.entries()
        &&& after.held() == before.held().push(incoming)
    }
}

/// The events of a connect that are not introductions, in arrival order.
pub open spec fn held_back(events: Seq<Incoming>) -> Seq<Incoming>
    decreases events.len(),
{
    if events.len() == 0 {
        seq![]
    } else if is_hello(events.last()) {
        held_back(events.drop_last())
    } else {
        held_back(events.drop_last()).push(events.last())
    }
}

/// The descriptor module `id` last introduced itself with, if it did.
pub open spec fn last_hello(events: Seq<Incoming>, id: Seq<char>) -> Option<Descriptor>
    decreases events.len(),
{
    if events.len() == 0 {
        None
    } else if events.last().0@ == id && is_hello(events.last()) {
        match events.last().1 {
            ModuleEvent::Message(Event::Hello(d)) => Some(d),
            _ => None,
        }
    } else {
        last_hello(events.drop_last(), id)
    }
}

/// A sweep over a whole connect loses nothing: from an empty sweep, after
/// offering every event of the connect in turn, each module's descriptor is
/// the last one it introduced itself with, and every other event is held
/// back, in the order it arrived.
pub proof fn law_a_sweep_keeps_every_event(events: Seq<Incoming>, sweeps: Seq<HelloSweep>)
    requires
        sweeps.len() == events.len() + 1,
        sweeps[0].entries().len() == 0,
        sweeps[0].held().len() == 0,
        forall|i: int| 0 <= i < events.len() ==> #[trigger] offered(sweeps[i], sweeps[i + 1], events[i]),
    ensures
        sweeps.last().held() == held_back(events),
        forall|id: Seq<char>| #[trigger] lookup(sweeps.last().entries(), id) == last_hello(events, id),
    decreases events.len(),
{
    let n = events.len() as int;
    if n == 0 {
        assert(sweeps[0].held() == Seq::<Incoming>::empty());
        assert forall|id: Seq<char>| #[trigger] lookup(sweeps.last().entries(), id) == last_hello(events, id) by {
            assert(sweeps[0].entries() == Seq::<(ModuleId, Descriptor)>::empty());
        }
    } else {
        let before = events.drop_last();
        let earlier = sweeps.drop_last();
        assert forall|i: int| 0 <= i < before.len() implies #[trigger] offered(earlier[i], earlier[i + 1], before[i]) by {
            assert(offered(sweeps[i], sweeps[i + 1], events[i]));
        }
        law_a_sweep_keeps_every_event(before, earlier);
        assert(offered(sweeps[n - 1], sweeps[n], events[n - 1]));
        assert(earlier.last() == sweeps[n - 1]);
        assert forall|id: Seq<char>| #[trigger] lookup(sweeps.last().entries(), id) == last_hello(events, id) by {
            assert(lookup(earlier.last().entries(), id) == last_hello(before, id));
        }
    }
}

/// The modules a scenario was given, in the order it asked for them, and
/// what each said it was when it connected.
pub struct Roster {
    ids: Vec<ModuleId>,
    descriptors: Vec<(ModuleId, Descriptor)>,
}

impl Roster {
    /// The acquired ids, in order.
    pub closed spec fn id_list(&self) -> Seq<ModuleId> {
        self.ids@
    }

    /// The descriptor each module gave, by id.
    pub closed spec fn described(&self, id: Seq<char>) -> Option<Descriptor> {
        lookup(self.descriptors@, id)
    }

    /// A roster of the acquired `ids` and what the `Hello` sweep collected.
    pub fn new(ids: Vec<ModuleId>, descriptors: Vec<(ModuleId, Descriptor)>) -> (roster: Roster)
        ensures
            roster.id_list() == ids@,
            forall|id: Seq<char>| #[trigger] roster.described(id) == lookup(descriptors@, id),
    {
        Roster { ids, descriptors }
    }

    /// Every module, in the order the scenario asked for them.
    pub fn ids(&self) -> (ids: &Vec<ModuleId>)
        ensures
            ids@ == self.id_list(),
    {
        &self.ids
    }

    /// What a module said it was, when it connected.
    pub fn descriptor(&self, id: &ModuleId) -> (found: Option<Descriptor>)
        ensures
            found == self.described(id@),
    {
        match position(&self.descriptors, id) {
            Some(i) => Some(self.descriptors[i].1),
            None => None,
        }
    }
}

/// Why a module cannot serve a scenario.
#[derive(Debug)]
pub enum RequireError {
    /// The module speaks another protocol version.
    Incompatible { id: ModuleId, protocol: u8 },
    /// The module is another kind of thing.
    WrongRole { id: ModuleId, actual: Role, wanted: Role },
    /// The module lacks channels the scenario intends to use.
    TooFewChannels { id: ModuleId, has_inputs: u8, has_outputs: u8, needs_inputs: u8, needs_outputs: u8 },
}

/// Whether `e` is the refusal of module `id`, which described itself as `d`,
/// by a scenario that needs `role` (if any), `inputs` inputs and `outputs`
/// outputs: the checks run in order, protocol version, role, channels.
pub open spec fn refused_for(
    e: RequireError,
    id: Seq<char>,
    d: Descriptor,
    role: Option<Role>,
    inputs: u8,
    outputs: u8,
) -> bool {
    if d.protocol != PROTOCOL_VERSION {
        e matches RequireError::Incompatible { id: m, protocol } && m@ == id && protocol == d.protocol
    } else if role is Some && d.role != role->0 {
        e matches RequireError::WrongRole { id: m, actual, wanted } && m@ == id && actual == d.role
            && wanted == role->0
    } else {
        e matches RequireError::TooFewChannels { id: m, has_inputs, has_outputs, needs_inputs, needs_outputs }
            && m@ == id && has_inputs == d.inputs && has_outputs == d.outputs
            && needs_inputs == inputs && needs_outputs == outputs
    }
}

/// Whether `e` is the refusal the capability check gives module `id` of
/// `modules`.
pub open spec fn refusal_of(
    modules: Roster,
    e: RequireError,
    id: Seq<char>,
    role: Option<Role>,
    inputs: u8,
    outputs: u8,
) -> bool {
    modules.described(id) matches Some(d) && refused_for(e, id, d, role, inputs, outputs)
}

/// How a [`RequireError`] is reported.
pub open spec fn require_error_text(e: RequireError) -> Seq<char> {
    match e {
        RequireError::Incompatible { id, .. } =>
            "module "@ + id@ + " is running incompatible firmware"@,
        RequireError::WrongRole { id, actual, wanted } =>
            "module "@ + id@ + " is a "@ + role_name(actual) + ", but the scenario needs a "@ + role_name(wanted),
        RequireError::TooFewChannels { id, has_inputs, has_outputs, needs_inputs, needs_outputs } =>
            "module "@ + id@ + " has "@ + decimal(has_inputs as nat) + " input(s) and "@
                + decimal(has_outputs as nat) + " output(s), but the scenario needs "@
                + decimal(needs_inputs as nat) + " and "@ + decimal(needs_outputs as nat),
    }
}

impl RequireError {
    /// The sentence this error is reported with.
    pub fn message(&self) -> (text: String)
        ensures
            text@ == require_error_text(*self),
    {
        let mut s = String::from_str("module ");
        match self {
            RequireError::Incompatible { id, .. } => {
                s.append(id.as_str());
                s.append(" is running incompatible firmware");
            },
            RequireError::WrongRole { id, actual, wanted } => {
                s.append(id.as_str());
                s.append(" is a ");
                s.append(actual.name());
                s.append(", but the scenario needs a ");
                s.append(wanted.name());
            },
            RequireError::TooFewChannels { id, has_inputs, has_outputs, needs_inputs, needs_outputs } => {
                s.append(id.as_str());
                s.append(" has ");
                push_decimal(&mut s, *has_inputs as u64);
                s.append(" input(s) and ");
                push_decimal(&mut s, *has_outputs as u64);
                s.append(" output(s), but the scenario needs ");
                push_decimal(&mut s, *needs_inputs as u64);
                s.append(" and ");
                push_decimal(&mut s, *needs_outputs as u64);
            },
        }
        s
    }
}

/// Whether a module that described itself as `d` can serve a scenario that
/// needs `role` (if any), `inputs` inputs and `outputs` outputs.
pub open spec fn capable(d: Descriptor, role: Option<Role>, inputs: u8, outputs: u8) -> bool {
    &&& d.protocol == PROTOCOL_VERSION
    &&& (role matches Some(w) ==> d.role == w)
    &&& d.inputs >= inputs
    &&& d.outputs >= outputs
}

/// Whether the module `id` can serve a scenario that needs `role` (if any),
/// `inputs` inputs and `outputs` outputs: it described itself as capable,
/// or did not describe itself at all.
pub open spec fn serves(modules: Roster, id: Seq<char>, role: Option<Role>, inputs: u8, outputs: u8) -> bool {
    match modules.described(id) {
        None => true,
        Some(d) => capable(d, role, inputs, outputs),
    }
}

/// As [`require`], but also insist the module is a particular kind of thing.
///
/// A module that never described itself passes (there is nothing to check);
/// otherwise the checks run in order: protocol version, role, channels.
pub fn require_role(
    modules: &Roster,
    id: &ModuleId,
    role: Option<Role>,
    inputs: u8,
    outputs: u8,
) -> (checked: Result<(), RequireError>)
    ensures
        checked is Ok <==> serves(*modules, id@, role, inputs, outputs),
        checked matches Err(e) ==> refusal_of(*modules, e, id@, role, inputs, outputs),
        modules.described(id@) matches Some(d) ==> {
            &&& checked is Ok <==> capable(d, role, inputs, outputs)
            &&& d.protocol != PROTOCOL_VERSION ==> (checked matches Err(RequireError::Incompatible { id: m, protocol })
                && m@ == id@ && protocol == d.protocol)
            &&& (d.protocol == PROTOCOL_VERSION && role is Some && d.role != role->0) ==> (
                checked matches Err(RequireError::WrongRole { id: m, actual, wanted })
                && m@ == id@ && actual == d.role && wanted == role->0)
            &&& d.protocol == PROTOCOL_VERSION && (role matches Some(w) ==> d.role == w)
                && (d.inputs < inputs || d.outputs < outputs) ==> (
                checked matches Err(RequireError::TooFewChannels { id: m, has_inputs, has_outputs, needs_inputs, needs_outputs })
                && m@ == id@ && has_inputs == d.inputs && has_outputs == d.outputs
                && needs_inputs == inputs && needs_outputs == outputs)
        },
{
    let descriptor = match modules.descriptor(id) {
        None => return Ok(()),
        Some(d) => d,
    };
    if !descriptor.is_compatible() {
        return Err(RequireError::Incompatible { id: id.duplicate(), protocol: descriptor.protocol });
    }
    if let Some(wanted) = role {
        if descriptor.role != wanted {
            return Err(RequireError::WrongRole { id: id.duplicate(), actual: descriptor.role, wanted });
        }
    }
    if descriptor.inputs < inputs || descriptor.outputs < outputs {
        return Err(RequireError::TooFewChannels {
            id: id.duplicate(),
            has_inputs: descriptor.inputs,
            has_outputs: descriptor.outputs,
            needs_inputs: inputs,
            needs_outputs: outputs,
        });
    }
    Ok(())
}

/// Check that a module runs compatible firmware and has the channels the
/// scenario intends to use: [`require_role`] with no role.
pub fn require(modules: &Roster, id: &ModuleId, inputs: u8, outputs: u8) -> (checked: Result<(), RequireError>)
    ensures
        checked is Ok <==> serves(*modules, id@, None, inputs, outputs),
        checked matches Err(e) ==> refusal_of(*modules, e, id@, None, inputs, outputs),
        modules.described(id@) matches Some(d) ==> (d.protocol != PROTOCOL_VERSION ==> (
            checked matches Err(RequireError::Incompatible { id: m, protocol }) && m@ == id@)),
        modules.described(id@) matches Some(d) ==> (d.protocol == PROTOCOL_VERSION
            && (d.inputs < inputs || d.outputs < outputs) ==> (
            checked matches Err(RequireError::TooFewChannels { id: m, has_inputs, has_outputs, needs_inputs, needs_outputs })
            && m@ == id@ && has_inputs == d.inputs && has_outputs == d.outputs
            && needs_inputs == inputs && needs_outputs == outputs)),
{
    require_role(modules, id, None, inputs, outputs)
}

} // verus!
