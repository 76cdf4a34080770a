//! Which physical boards a scenario expects, and the `--modules` list that
//! overrides them.

use vstd::prelude::*;
use vstd::string::*;
use crate::link::ModuleId;
use crate::modules::{button_module, ButtonLed};
use crate::proto::Descriptor;
use crate::sim;
use crate::text::{chars_of, debug_quoted, debug_str, string_of, trim, trim_bounds};
use crate::uuids::str_eq;

verus! {

/// `s` cut at every `,`, as `str::split(',')` cuts it: always at least one
/// piece, and an empty piece wherever two commas meet or at either end.
pub open spec fn split_commas(s: Seq<char>) -> Seq<Seq<char>>
    decreases s.len(),
{
    if s.len() == 0 {
        seq![Seq::<char>::empty()]
    } else {
        let before = split_commas(s.drop_last());
        if s.last() == ',' {
            before.push(Seq::<char>::empty())
        } else {
            before.update(before.len() - 1, before.last().push(s.last()))
        }
    }
}

/// Every piece, trimmed.
pub open spec fn trim_all(pieces: Seq<Seq<char>>) -> Seq<Seq<char>> {
    pieces.map_values(|piece: Seq<char>| trim(piece))
}

/// The ids named by a `--modules` list: each comma-separated piece, trimmed.
pub open spec fn listed_ids(list: Seq<char>) -> Seq<Seq<char>> {
    trim_all(split_commas(list))
}

/// Whether the id at position `k` is refused: empty, or a repeat of an
/// earlier one.
pub open spec fn refused_at(ids: Seq<Seq<char>>, k: int) -> bool {
    ids[k].len() == 0 || exists|j: int| 0 <= j < k && ids[j] == ids[k]
}

/// Why a `--modules` list was refused.
#[derive(Debug, PartialEq, Eq)]
pub enum ModulesListError {
    /// The list, quoted back, has an empty id in it.
    EmptyId { list: String },
    /// This id is listed twice.
    Duplicate { id: String },
}

/// How a [`ModulesListError`] is reported.
pub open spec fn modules_list_error_text(e: ModulesListError) -> Seq<char> {
    match e {
        ModulesListError::EmptyId { list } =>
            debug_str(list@) + " has an empty id. Write the list as `--modules a,b`, matching the ids the boards were flashed with."@,
        ModulesListError::Duplicate { id } =>
            debug_str(id@) + " is listed twice. Two boards flashed with the same id advertise the same name, and only one of them can be bound."@,
    }
}

impl ModulesListError {
    /// The sentence this error is reported with.
    pub fn message(&self) -> (text: String)
        ensures
            text@ == modules_list_error_text(*self),
    {
        match self {
            ModulesListError::EmptyId { list } => {
                let mut s = debug_quoted(list.as_str());
                s.append(" has an empty id. Write the list as `--modules a,b`, matching the ids the boards were flashed with.");
                s
            },
            ModulesListError::Duplicate { id } => {
                let mut s = debug_quoted(id.as_str());
                s.append(" is listed twice. Two boards flashed with the same id advertise the same name, and only one of them can be bound.");
                s
            },
        }
    }
}

/// Whether `id` equals one of `ids`.
fn listed(ids: &Vec<String>, id: &String) -> (found: bool)
    ensures
        found == exists|j: int| 0 <= j < ids@.len() && (#[trigger] ids@[j])@ == id@,
{
    let mut j: usize = 0;
    while j < ids.len()
        invariant
            j <= ids@.len(),
            forall|k: int| 0 <= k < j ==> (#[trigger] ids@[k])@ != id@,
        decreases ids@.len() - j,
    {
        if ids[j] == *id {
            return true;
        }
        j += 1;
    }
    false
}

/// Check the next piece of the list, `chars[from..to]`, against the ids
/// already accepted, and accept it.
fn accept_piece(
    ids: &mut Vec<String>,
    chars: &Vec<char>,
    from: usize,
    to: usize,
    list: &str,
) -> (checked: Result<(), ModulesListError>)
    requires
        from <= to <= chars@.len(),
    ensures
        ({
            let piece = trim(chars@.subrange(from as int, to as int));
            let seen = old(ids)@.map_values(|s: String| s@);
            let repeat = exists|j: int| 0 <= j < seen.len() && seen[j] == piece;
            &&& piece.len() == 0 ==> (checked matches Err(ModulesListError::EmptyId { list: l }) && l@ == list@)
            &&& piece.len() > 0 && repeat ==> (checked matches Err(ModulesListError::Duplicate { id }) && id@ == piece)
            &&& piece.len() > 0 && !repeat ==> checked is Ok && final(ids)@.map_values(|s: String| s@) == seen.push(piece)
            &&& checked is Ok <==> (piece.len() > 0 && !repeat)
        }),
{
    let (lo, hi) = trim_bounds(chars, from, to);
    if lo == hi {
        return Err(ModulesListError::EmptyId { list: String::from_str(list) });
    }
    let id = string_of(chars, lo, hi);
    let ghost seen = ids@.map_values(|s: String| s@);
    if listed(ids, &id) {
        proof {
            let j = choose|j: int| 0 <= j < ids@.len() && (#[trigger] ids@[j])@ == id@;
            assert(seen[j] == id@);
        }
        return Err(ModulesListError::Duplicate { id });
    }
    proof {
        assert forall|j: int| 0 <= j < seen.len() implies seen[j] != id@ by {
            assert(seen[j] == ids@[j]@);
        }
    }
    ids.push(id);
    assert(ids@.map_values(|s: String| s@) == seen.push(id@));
    Ok(())
}


/// The first refused position of `ids`, if any is refused.
pub open spec fn first_refused(ids: Seq<Seq<char>>, k: int) -> bool {
    0 <= k < ids.len() && refused_at(ids, k) && forall|j: int| 0 <= j < k ==> !#[trigger] refused_at(ids, j)
}

/// Read a `--modules` list: comma-separated ids, each trimmed of white space.
///
/// Refuses the first id, in order, that is empty or repeats an earlier one;
/// otherwise returns every id in the order given.
pub fn parse_modules(list: &str) -> (parsed: Result<Vec<String>, ModulesListError>)
    ensures
        ({
            let ids = listed_ids(list@);
            &&& parsed is Ok <==> (forall|k: int| 0 <= k < ids.len() ==> !#[trigger] refused_at(ids, k))
            &&& parsed matches Ok(v) ==> v@.map_values(|s: String| s@) == ids
            &&& parsed matches Err(ModulesListError::EmptyId { list: l }) ==> (l@ == list@
                && exists|k: int| first_refused(ids, k) && ids[k].len() == 0)
            &&& parsed matches Err(ModulesListError::Duplicate { id }) ==> (
                exists|k: int| first_refused(ids, k) && ids[k].len() > 0 && ids[k] == id@)
        }),
{
    let chars = chars_of(list);
    let n = chars.len();
    let mut ids: Vec<String> = Vec::new();
    let mut start: usize = 0;
    let mut i: usize = 0;
    let ghost mut done: Seq<Seq<char>> = Seq::empty();
    assert(chars@.take(0) == Seq::<char>::empty());
    assert(chars@.subrange(0, 0) == Seq::<char>::empty());
    while i < n
        invariant
            n == chars@.len(),
            chars@ == list@,
            start <= i <= n,
            split_commas(chars@.take(i as int)) == done.push(chars@.subrange(start as int, i as int)),
            ids@.map_values(|s: String| s@) == trim_all(done),
            forall|k: int| 0 <= k < done.len() ==> !#[trigger] refused_at(trim_all(done), k),
        decreases n - i,
    {
        let ghost before = chars@.take(i as int);
        assert(chars@.take(i + 1).drop_last() == before);
        assert(chars@.take(i + 1).last() == chars@[i as int]);
        if chars[i] == ',' {
            let ghost trimmed = trim_all(done);
            let ghost piece = chars@.subrange(start as int, i as int);
            let checked = accept_piece(&mut ids, &chars, start, i, list);
            match checked {
                Err(e) => {
                    proof {
                        lemma_refusal_is_first(done, piece, chars@, list@, i as int);
                        lemma_first_refused(done, piece, list@);
                    }
                    return Err(e);
                },
                Ok(()) => {},
            }
            proof {
                let now = done.push(piece);
                assert(trim_all(now) == trimmed.push(trim(piece)));
                assert forall|k: int| 0 <= k < now.len() implies !#[trigger] refused_at(trim_all(now), k) by {
                    assert(trim_all(now)[k] == (if k < done.len() { trimmed[k] } else { trim(piece) }));
                    if k < done.len() {
                        assert(!refused_at(trimmed, k));
                        if exists|j: int| 0 <= j < k && trim_all(now)[j] == trim_all(now)[k] {
                            let j = choose|j: int| 0 <= j < k && trim_all(now)[j] == trim_all(now)[k];
                            assert(trimmed[j] == trimmed[k]);
                        }
                    } else {
                        if exists|j: int| 0 <= j < k && trim_all(now)[j] == trim_all(now)[k] {
                            let j = choose|j: int| 0 <= j < k && trim_all(now)[j] == trim_all(now)[k];
                            assert(trimmed[j] == trim(piece));
                        }
                    }
                }
                done = now;
            }
            start = i + 1;
        }
        assert(chars@.subrange(start as int, i + 1) == (if start == i + 1 { Seq::<char>::empty() } else { chars@.subrange(start as int, i as int).push(chars@[i as int]) }));
        i += 1;
    }
    let ghost trimmed = trim_all(done);
    let ghost piece = chars@.subrange(start as int, n as int);
    assert(chars@.take(n as int) == chars@);
    let checked = accept_piece(&mut ids, &chars, start, n, list);
    match checked {
        Err(e) => {
            proof {
                lemma_refusal_is_first(done, piece, chars@, list@, n as int);
                lemma_first_refused(done, piece, list@);
            }
            Err(e)
        },
        Ok(()) => {
            proof {
                let all = done.push(piece);
                assert(listed_ids(list@) == trim_all(all));
                assert(trim_all(all) == trimmed.push(trim(piece)));
                assert forall|k: int| 0 <= k < all.len() implies !#[trigger] refused_at(trim_all(all), k) by {
                    if k < done.len() {
                        assert(!refused_at(trimmed, k));
                        if exists|j: int| 0 <= j < k && trim_all(all)[j] == trim_all(all)[k] {
                            let j = choose|j: int| 0 <= j < k && trim_all(all)[j] == trim_all(all)[k];
                            assert(trimmed[j] == trimmed[k]);
                        }
                    } else {
                        if exists|j: int| 0 <= j < k && trim_all(all)[j] == trim_all(all)[k] {
                            let j = choose|j: int| 0 <= j < k && trim_all(all)[j] == trim_all(all)[k];
                            assert(trimmed[j] == trim(piece));
                        }
                    }
                }
            }
            Ok(ids)
        },
    }
}

/// When the piece after `done` is refused, it is the first refused id of the
/// whole list: every later piece only extends the list of ids.
proof fn lemma_refusal_is_first(
    done: Seq<Seq<char>>,
    piece: Seq<char>,
    chars: Seq<char>,
    list: Seq<char>,
    i: int,
)
    requires
        chars == list,
        0 <= i <= chars.len(),
        i == chars.len() || chars[i] == ',',
        split_commas(chars.take(i)) == done.push(piece),
        forall|k: int| 0 <= k < done.len() ==> !#[trigger] refused_at(trim_all(done), k),
    ensures
        ({
            let ids = listed_ids(list);
            let k = done.len() as int;
            &&& k < ids.len()
            &&& ids[k] == trim(piece)
            &&& forall|j: int| 0 <= j < k ==> ids[j] == #[trigger] trim_all(done)[j]
            &&& forall|j: int| 0 <= j < k ==> !#[trigger] refused_at(ids, j)
        }),
{
    let long = split_commas(chars);
    if i == chars.len() {
        assert(chars.take(i) == chars);
    } else {
        let t = chars.take(i + 1);
        assert(t.drop_last() == chars.take(i));
        assert(split_commas(t) == done.push(piece).push(Seq::<char>::empty()));
        lemma_split_prefix(chars, i + 1);
    }
    assert forall|j: int| 0 <= j <= done.len() implies long[j] == done.push(piece)[j] by {}
    let ids = listed_ids(list);
    let trimmed = trim_all(done);
    assert forall|j: int| 0 <= j < done.len() implies !#[trigger] refused_at(ids, j) by {
        assert(ids[j] == trimmed[j]);
        assert(!refused_at(trimmed, j));
        if exists|m: int| 0 <= m < j && ids[m] == ids[j] {
            let m = choose|m: int| 0 <= m < j && ids[m] == ids[j];
            assert(trimmed[m] == trimmed[j]);
        }
    }
}

/// Cutting a longer text never changes the pieces already complete in a
/// prefix of it.
proof fn lemma_split_prefix(s: Seq<char>, i: int)
    requires
        0 <= i <= s.len(),
    ensures
        split_commas(s.take(i)).len() <= split_commas(s).len(),
        forall|j: int| 0 <= j < split_commas(s.take(i)).len() - 1
            ==> #[trigger] split_commas(s)[j] == split_commas(s.take(i))[j],
    decreases s.len(),
{
    lemma_split_nonempty(s);
    lemma_split_nonempty(s.take(i));
    if i == s.len() {
        assert(s.take(i) == s);
    } else {
        let d = s.drop_last();
        assert(d.take(i) == s.take(i));
        lemma_split_prefix(d, i);
        lemma_split_nonempty(d);
    }
}



/// Which physical boards a scenario expects on the bench.
pub struct Bench {
    /// The ids of the button boards.
    pub buttons: Vec<&'static str>,
    /// The id of the coin acceptor, if this scenario takes money.
    pub coin: Option<&'static str>,
}

/// The ids of the two default button boards.
pub open spec fn default_buttons(buttons: Seq<&'static str>) -> bool {
    buttons.len() == 2 && buttons[0]@ == "a"@ && buttons[1]@ == "b"@
}

impl Bench {
    /// The bench a scenario expects: buttons `a` and `b`, plus the coin slot
    /// `slot` for `arcade`.
    pub fn for_scenario(name: &str) -> (bench: Bench)
        ensures
            default_buttons(bench.buttons@),
            bench.coin is Some <==> name@ == "arcade"@,
            bench.coin matches Some(slot) ==> slot@ == "slot"@,
    {
        let buttons = vec!["a", "b"];
        let coin = if str_eq(name, "arcade") { Some("slot") } else { None };
        Bench { buttons, coin }
    }

    /// The simulated bench: each module with what it claims to be, the coin
    /// slot first.
    pub fn sim_specs(&self) -> (specs: Vec<(ModuleId, Descriptor)>)
        ensures
            ({
                let offset: int = if self.coin is Some { 1 } else { 0 };
                &&& specs@.len() == offset + self.buttons@.len()
                &&& self.coin matches Some(slot) ==> specs@[0].0@ == slot@ && specs@[0].1 == sim::coin_spec()
                &&& forall|i: int| 0 <= i < self.buttons@.len() ==> (#[trigger] specs@[offset + i]).0@ == self.buttons@[i]@
                    && specs@[offset + i].1 == sim::button_spec(1, 1)
            }),
    {
        let mut specs: Vec<(ModuleId, Descriptor)> = Vec::new();
        if let Some(slot) = self.coin {
            specs.push((ModuleId::new(slot), sim::coin()));
        }
        let ghost offset: int = specs@.len() as int;
        let mut i: usize = 0;
        while i < self.buttons.len()
            invariant
                offset == (if self.coin is Some { 1int } else { 0 }),
                i <= self.buttons@.len(),
                specs@.len() == offset + i,
                self.coin matches Some(slot) ==> specs@[0].0@ == slot@ && specs@[0].1 == sim::coin_spec(),
                forall|k: int| 0 <= k < i ==> (#[trigger] specs@[offset + k]).0@ == self.buttons@[k]@
                    && specs@[offset + k].1 == sim::button_spec(1, 1),
            decreases self.buttons@.len() - i,
        {
            specs.push((ModuleId::new(self.buttons[i]), sim::button(1, 1)));
            i += 1;
        }
        specs
    }

    /// The BLE definitions, one button board per id.
    pub fn button_modules(&self) -> (modules: Vec<ButtonLed>)
        ensures
            modules@.len() == self.buttons@.len(),
            forall|i: int| 0 <= i < modules@.len() ==> #[trigger] modules@[i] == crate::modules::button_module_spec(self.buttons@[i]),
    {
        let mut modules: Vec<ButtonLed> = Vec::new();
        let mut i: usize = 0;
        while i < self.buttons.len()
            invariant
                i <= self.buttons@.len(),
                modules@.len() == i,
                forall|k: int| 0 <= k < i ==> #[trigger] modules@[k] == crate::modules::button_module_spec(self.buttons@[k]),
            decreases self.buttons@.len() - i,
        {
            modules.push(button_module(self.buttons[i]));
            i += 1;
        }
        modules
    }
}

/// A piece that is empty, or equal to a trimmed earlier piece, is the first
/// refused id when everything before it was accepted.
proof fn lemma_first_refused(done: Seq<Seq<char>>, piece: Seq<char>, list: Seq<char>)
    requires
        ({
            let ids = listed_ids(list);
            let k = done.len() as int;
            &&& k < ids.len()
            &&& ids[k] == trim(piece)
            &&& forall|j: int| 0 <= j < k ==> ids[j] == #[trigger] trim_all(done)[j]
            &&& forall|j: int| 0 <= j < k ==> !#[trigger] refused_at(ids, j)
        }),
        trim(piece).len() == 0 || exists|j: int| 0 <= j < done.len() && #[trigger] trim_all(done)[j] == trim(piece),
    ensures
        first_refused(listed_ids(list), done.len() as int),
{
    let ids = listed_ids(list);
    let k = done.len() as int;
    if trim(piece).len() != 0 {
        let j = choose|j: int| 0 <= j < done.len() && #[trigger] trim_all(done)[j] == trim(piece);
        assert(ids[j] == ids[k]);
    }
}

/// Cutting always yields at least one piece.
proof fn lemma_split_nonempty(s: Seq<char>)
    ensures
        split_commas(s).len() >= 1,
    decreases s.len(),
{
    if s.len() > 0 {
        lemma_split_nonempty(s.drop_last());
    }
}

} // verus!
