//! Module definitions: which UUIDs a kind of module exposes, and the checks
//! run on them before the radio is touched.

use vstd::prelude::*;
use vstd::string::*;
use crate::text::{debug_quoted, debug_str, decimal, push_decimal};
use crate::uuids;

verus! {

/// What `uuid::Uuid::parse_str` makes of a text: the 128-bit value it names,
/// or `None` when the text is not a UUID in any format the crate accepts.
pub uninterp spec fn uuid_parse(text: Seq<char>) -> Option<u128>;

/// How the uuid crate explains why a text is not a UUID: the `Display` of
/// the error `uuid::Uuid::parse_str` gives on it, such as
/// `invalid group length in group 4: expected 12, found 11`.
pub uninterp spec fn uuid_parse_error(text: Seq<char>) -> Seq<char>;

/// Calls `uuid::Uuid::parse_str`: on success hands back the parsed value as
/// its 128-bit number, on failure the error rendered with `{}`. The
/// contract claims only that both are functions of the text; which texts
/// parse, and the wording of the crate's diagnostics, are the uuid crate's
/// and are not restated.
#[verifier::external_body]
fn uuid_parse_str(text: &str) -> (parsed: Result<u128, String>)
    ensures
        parsed is Ok <==> uuid_parse(text@) is Some,
        parsed matches Ok(id) ==> uuid_parse(text@) == Some(id),
        parsed matches Err(reason) ==> reason@ == uuid_parse_error(text@),
{
    match uuid::Uuid::parse_str(text) {
        Ok(id) => Ok(id.as_u128()),
        Err(e) => Err(format!("{}", e)),
    }
}

/// A UUID that did not parse, and which field it came from.
#[derive(Debug, Clone, Copy, PartialEq, Eq)]
pub struct UuidError {
    /// The name of the definition field holding the text.
    pub field: &'static str,
    /// The text that is not a UUID.
    pub value: &'static str,
}

/// `field is not a valid UUID: "value": reason`, the reason being the uuid
/// crate's own diagnostic (absent for a text that does parse).
pub open spec fn uuid_error_text(e: UuidError) -> Seq<char> {
    e.field@ + " is not a valid UUID: "@ + debug_str(e.value@) + if uuid_parse(e.value@) is None {
        ": "@ + uuid_parse_error(e.value@)
    } else {
        Seq::<char>::empty()
    }
}

impl UuidError {
    /// The sentence this error is reported with: the field, the quoted
    /// value, then the uuid crate's reason.
    pub fn message(&self) -> (text: String)
        ensures
            text@ == uuid_error_text(*self),
    {
        let mut s = String::from_str(self.field);
        s.append(" is not a valid UUID: ");
        let quoted = debug_quoted(self.value);
        s.append(quoted.as_str());
        match uuid_parse_str(self.value) {
            Err(reason) => {
                s.append(": ");
                s.append(reason.as_str());
            },
            Ok(_) => {},
        }
        s
    }
}

/// What an attempt to parse `value` amounts to, given what the parser made
/// of it: the 128-bit value, or an error naming the field and quoting the
/// text.
pub fn uuid_outcome(parsed: Option<u128>, value: &'static str, field: &'static str) -> (outcome: Result<u128, UuidError>)
    ensures
        parsed matches Some(id) ==> outcome == Ok::<u128, UuidError>(id),
        parsed is None ==> outcome == Err::<u128, UuidError>(UuidError { field, value }),
{
    match parsed {
        Some(id) => Ok(id),
        None => Err(UuidError { field, value }),
    }
}

/// Parse a UUID, naming the field it came from if it is malformed.
pub fn parse_uuid(value: &'static str, field: &'static str) -> (parsed: Result<u128, UuidError>)
    ensures
        uuid_parse(value@) matches Some(id) ==> parsed == Ok::<u128, UuidError>(id),
        uuid_parse(value@) is None ==> parsed == Err::<u128, UuidError>(UuidError { field, value }),
{
    let parsed = match uuid_parse_str(value) {
        Ok(id) => Some(id),
        Err(_) => None,
    };
    uuid_outcome(parsed, value, field)
}

/// Whether `value` parses as a UUID.
pub open spec fn uuid_ok(value: &'static str) -> bool {
    uuid_parse(value@) is Some
}

/// Why a module definition is invalid: a malformed UUID, and which part of a
/// composite module it sits in (`None` for a module with one part).
#[derive(Debug, Clone, Copy, PartialEq, Eq)]
pub struct DefinitionError {
    pub part: Option<&'static str>,
    pub uuid: UuidError,
}

/// `part: field is not a valid UUID: "value"`, or without the part.
pub open spec fn definition_error_text(e: DefinitionError) -> Seq<char> {
    match e.part {
        Some(part) => part@ + ": "@ + uuid_error_text(e.uuid),
        None => uuid_error_text(e.uuid),
    }
}

impl DefinitionError {
    /// The sentence this error is reported with.
    pub fn message(&self) -> (text: String)
        ensures
            text@ == definition_error_text(*self),
    {
        match self.part {
            Some(part) => {
                let mut s = String::from_str(part);
                s.append(": ");
                let inner = self.uuid.message();
                s.append(inner.as_str());
                s
            },
            None => self.uuid.message(),
        }
    }
}

/// A kind of module the brain can bind: how it is named in logs, and the
/// check run on its definition before any radio work.
pub trait ModuleDefinition {
    /// Short name for this kind of module.
    spec fn label_text(&self) -> Seq<char>;

    /// The first malformed UUID in the definition, if there is one.
    spec fn first_problem(&self) -> Option<DefinitionError>;

    /// Short name for this kind of module, used in logs and error messages.
    fn label(&self) -> (label: String)
        ensures
            label@ == self.label_text(),
    ;

    /// Check every UUID this definition holds.
    fn validate(&self) -> (checked: Result<(), DefinitionError>)
        ensures
            checked matches Err(e) ==> self.first_problem() == Some(e),
            checked is Ok ==> self.first_problem() is None,
    ;
}

/// Definition of a module that notifies: a sensor, a button.
#[derive(Debug, Clone, Copy, PartialEq, Eq, Hash)]
pub struct Notifier {
    /// Service UUID which is advertised.
    pub service: &'static str,
    /// Characteristic UUID a client subscribes to for notifications.
    pub charac_notify_id: &'static str,
}

/// Definition of a module that can be written to: a motor, an LED.
#[derive(Debug, Clone, Copy, PartialEq, Eq, Hash)]
pub struct Writable {
    /// Service UUID which is advertised.
    pub service: &'static str,
    /// Characteristic UUID a client writes to.
    pub charac_write_id: &'static str,
}

/// The first of two UUID fields that does not parse.
pub open spec fn first_bad_of_two(
    part: Option<&'static str>,
    f1: &'static str,
    v1: &'static str,
    f2: &'static str,
    v2: &'static str,
) -> Option<DefinitionError> {
    if !uuid_ok(v1) {
        Some(DefinitionError { part, uuid: UuidError { field: f1, value: v1 } })
    } else if !uuid_ok(v2) {
        Some(DefinitionError { part, uuid: UuidError { field: f2, value: v2 } })
    } else {
        None
    }
}

impl ModuleDefinition for Notifier {
    open spec fn label_text(&self) -> Seq<char> {
        "notifier "@ + self.service@
    }

    open spec fn first_problem(&self) -> Option<DefinitionError> {
        first_bad_of_two(None, "service", self.service, "charac_notify_id", self.charac_notify_id)
    }

    fn label(&self) -> (label: String) {
        let mut s = String::from_str("notifier ");
        s.append(self.service);
        s
    }

    fn validate(&self) -> (checked: Result<(), DefinitionError>) {
        if let Err(e) = parse_uuid(self.service, "service") {
            return Err(DefinitionError { part: None, uuid: e });
        }
        if let Err(e) = parse_uuid(self.charac_notify_id, "charac_notify_id") {
            return Err(DefinitionError { part: None, uuid: e });
        }
        Ok(())
    }
}

impl ModuleDefinition for Writable {
    open spec fn label_text(&self) -> Seq<char> {
        "writable "@ + self.service@
    }

    open spec fn first_problem(&self) -> Option<DefinitionError> {
        first_bad_of_two(None, "service", self.service, "charac_write_id", self.charac_write_id)
    }

    fn label(&self) -> (label: String) {
        let mut s = String::from_str("writable ");
        s.append(self.service);
        s
    }

    fn validate(&self) -> (checked: Result<(), DefinitionError>) {
        if let Err(e) = parse_uuid(self.service, "service") {
            return Err(DefinitionError { part: None, uuid: e });
        }
        if let Err(e) = parse_uuid(self.charac_write_id, "charac_write_id") {
            return Err(DefinitionError { part: None, uuid: e });
        }
        Ok(())
    }
}

/// One physical button-and-LED board.
#[derive(Debug, Clone, Copy, PartialEq, Eq)]
pub struct ButtonLed {
    /// Which physical board this is: the id it was flashed with.
    pub id: &'static str,
    pub button: Notifier,
    pub led: Writable,
}

impl ButtonLed {
    /// The name the board advertises: `modit-button-<id>`.
    pub fn advertised_name(&self) -> (name: String)
        ensures
            name@ == "modit-button-"@ + self.id@,
    {
        let mut s = String::from_str("modit-button-");
        s.append(self.id);
        s
    }
}

impl ModuleDefinition for ButtonLed {
    open spec fn label_text(&self) -> Seq<char> {
        "button-led "@ + self.id@
    }

    open spec fn first_problem(&self) -> Option<DefinitionError> {
        match first_bad_of_two(Some("button"), "service", self.button.service,
            "charac_notify_id", self.button.charac_notify_id) {
            Some(e) => Some(e),
            None => first_bad_of_two(Some("led"), "service", self.led.service,
                "charac_write_id", self.led.charac_write_id),
        }
    }

    fn label(&self) -> (label: String) {
        let mut s = String::from_str("button-led ");
        s.append(self.id);
        s
    }

    fn validate(&self) -> (checked: Result<(), DefinitionError>) {
        if let Err(e) = self.button.validate() {
            return Err(DefinitionError { part: Some("button"), uuid: e.uuid });
        }
        if let Err(e) = self.led.validate() {
            return Err(DefinitionError { part: Some("led"), uuid: e.uuid });
        }
        Ok(())
    }
}

/// The definition of the board flashed with `id`, speaking the shared UUIDs.
pub open spec fn button_module_spec(id: &'static str) -> ButtonLed {
    ButtonLed {
        id,
        button: Notifier { service: uuids::SERVICE, charac_notify_id: uuids::BUTTON_NOTIFY },
        led: Writable { service: uuids::SERVICE, charac_write_id: uuids::LED_WRITE },
    }
}

/// The definition of the board flashed with `id`, speaking the shared UUIDs.
pub fn button_module(id: &'static str) -> (module: ButtonLed)
    ensures
        module == button_module_spec(id),
{
    ButtonLed {
        id,
        button: Notifier { service: uuids::SERVICE, charac_notify_id: uuids::BUTTON_NOTIFY },
        led: Writable { service: uuids::SERVICE, charac_write_id: uuids::LED_WRITE },
    }
}

/// Why a list of module definitions cannot be used.
#[derive(Debug, PartialEq, Eq)]
pub enum ValidationError {
    /// The list is empty.
    NoModules,
    /// Definition number `index`, labelled `label`, is invalid.
    InModule { index: usize, label: String, error: DefinitionError },
}

/// `module i (label)`.
pub open spec fn module_tag(index: nat, label: Seq<char>) -> Seq<char> {
    "module "@ + decimal(index) + " ("@ + label + ")"@
}

/// How a [`ValidationError`] is reported, outer context first.
pub open spec fn validation_error_text(e: ValidationError) -> Seq<char> {
    match e {
        ValidationError::NoModules =>
            "no modules defined: there is nothing for the brain to talk to"@,
        ValidationError::InModule { index, label, error } =>
            module_tag(index as nat, label@) + ": "@ + definition_error_text(error),
    }
}

/// Append `module i (label)` to `out`.
fn push_module_tag(out: &mut String, index: usize, label: &String)
    ensures
        final(out)@ == old(out)@ + module_tag(index as nat, label@),
{
    out.append("module ");
    push_decimal(out, index as u64);
    out.append(" (");
    out.append(label.as_str());
    out.append(")");
}

impl ValidationError {
    /// The sentence this error is reported with.
    pub fn message(&self) -> (text: String)
        ensures
            text@ == validation_error_text(*self),
    {
        match self {
            ValidationError::NoModules =>
                String::from_str("no modules defined: there is nothing for the brain to talk to"),
            ValidationError::InModule { index, label, error } => {
                let mut s = String::new();
                push_module_tag(&mut s, *index, label);
                s.append(": ");
                let inner = error.message();
                s.append(inner.as_str());
                s
            },
        }
    }
}

/// Check every module definition before the radio is touched: the list must
/// be non-empty, and the first invalid definition is reported with its index
/// and label.
pub fn validate_modules<D: ModuleDefinition>(modules: &[D]) -> (checked: Result<(), ValidationError>)
    ensures
        modules@.len() == 0 ==> checked == Err::<(), ValidationError>(ValidationError::NoModules),
        modules@.len() > 0 && checked is Err ==> checked matches Err(ValidationError::InModule { .. }),
        modules@.len() > 0 ==> (checked is Ok <==> forall|i: int|
            0 <= i < modules@.len() ==> (#[trigger] modules@[i].first_problem()) is None),
        checked matches Err(ValidationError::InModule { index, label, error }) ==> {
            &&& index < modules@.len()
            &&& label@ == modules@[index as int].label_text()
            &&& modules@[index as int].first_problem() == Some(error)
            &&& forall|j: int| 0 <= j < index ==> (#[trigger] modules@[j].first_problem()) is None
        },
{
    if modules.len() == 0 {
        return Err(ValidationError::NoModules);
    }
    let mut i: usize = 0;
    while i < modules.len()
        invariant
            i <= modules@.len(),
            forall|j: int| 0 <= j < i ==> (#[trigger] modules@[j].first_problem()) is None,
        decreases modules@.len() - i,
    {
        match modules[i].validate() {
            Err(error) => {
                let label = modules[i].label();
                return Err(ValidationError::InModule { index: i, label, error });
            },
            Ok(()) => {},
        }
        i += 1;
    }
    Ok(())
}

/// The labels of the definitions no peripheral was bound to, `found[i]`
/// saying whether definition `i` was bound.
pub open spec fn unbound_spec<D: ModuleDefinition>(modules: Seq<D>, found: Seq<bool>) -> Seq<Seq<char>>
    decreases found.len(),
{
    if found.len() == 0 || modules.len() == 0 {
        seq![]
    } else {
        let n = if modules.len() < found.len() { modules.len() } else { found.len() };
        let last = (n - 1) as int;
        let rest = unbound_spec(modules.take(last), found.take(last));
        if found[last] {
            rest
        } else {
            rest.push(module_tag(last as nat, modules[last].label_text()))
        }
    }
}

/// Name the modules that no peripheral satisfied, for the retry message:
/// `module i (label)` for every `i` with `found[i]` false, in order.
pub fn unbound_labels<D: ModuleDefinition>(modules: &[D], found: &[bool]) -> (missing: Vec<String>)
    ensures
        missing@.map_values(|s: String| s@) == unbound_spec(modules@, found@),
{
    let n = if modules.len() < found.len() { modules.len() } else { found.len() };
    let mut missing: Vec<String> = Vec::new();
    let mut i: usize = 0;
    while i < n
        invariant
            n <= modules@.len(),
            n <= found@.len(),
            n == modules@.len() || n == found@.len(),
            i <= n,
            missing@.map_values(|s: String| s@) == unbound_spec(modules@.take(i as int), found@.take(i as int)),
        decreases n - i,
    {
        assert(modules@.take(i + 1).take(i as int) == modules@.take(i as int));
        assert(found@.take(i + 1).take(i as int) == found@.take(i as int));
        if !found[i] {
            let label = modules[i].label();
            let mut tag = String::new();
            push_module_tag(&mut tag, i, &label);
            missing.push(tag);
        }
        assert(missing@.map_values(|s: String| s@) == unbound_spec(modules@.take(i + 1), found@.take(i + 1)));
        i += 1;
    }
    proof {
        if n > 0 {
            let last = (n - 1) as int;
            assert(modules@.take(n as int).take(last) == modules@.take(last));
            assert(found@.take(n as int).take(last) == found@.take(last));
        } else {
            assert(unbound_spec(modules@, found@) == Seq::<Seq<char>>::empty());
        }
    }
    missing
}

} // verus!
