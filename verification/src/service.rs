//! Status reports of the service manager, as structured data.
//!
//! A report is matched against one pattern. What the pattern's groups
//! captured becomes the fields of a [`Service`]; a report that the pattern
//! does not match becomes the service without any field, which stands for a
//! unit that is no app (a target, a device) and is left out of listings.

use crate::text::{ends_with, has_suffix, to_chars, to_text, trim, trimmed};
use vstd::prelude::*;

verus! {

/// One unit, as its status report describes it.
#[derive(Debug, PartialEq, Eq)]
pub struct Service {
    pub name: Option<String>,
    pub description: Option<String>,
    pub loaded_status: Option<String>,
    pub unit_file_path: Option<String>,
    pub enabled: Option<String>,
    pub preset: Option<String>,
    pub active: Option<String>,
    pub active_state: Option<String>,
    pub trigger: Option<String>,
    pub triggers: Option<String>,
    pub docs: Option<String>,
}

/// The mathematical value of a [`Service`].
pub struct ServiceView {
    pub name: Option<Seq<char>>,
    pub description: Option<Seq<char>>,
    pub loaded_status: Option<Seq<char>>,
    pub unit_file_path: Option<Seq<char>>,
    pub enabled: Option<Seq<char>>,
    pub preset: Option<Seq<char>>,
    pub active: Option<Seq<char>>,
    pub active_state: Option<Seq<char>>,
    pub trigger: Option<Seq<char>>,
    pub triggers: Option<Seq<char>>,
    pub docs: Option<Seq<char>>,
}

/// The characters of a text that may be absent.
pub open spec fn text_view(text: Option<String>) -> Option<Seq<char>> {
    match text {
        Some(s) => Some(s@),
        None => None,
    }
}

impl View for Service {
    type V = ServiceView;

    open spec fn view(&self) -> ServiceView {
        ServiceView {
            name: text_view(self.name),
            description: text_view(self.description),
            loaded_status: text_view(self.loaded_status),
            unit_file_path: text_view(self.unit_file_path),
            enabled: text_view(self.enabled),
            preset: text_view(self.preset),
            active: text_view(self.active),
            active_state: text_view(self.active_state),
            trigger: text_view(self.trigger),
            triggers: text_view(self.triggers),
            docs: text_view(self.docs),
        }
    }
}

/// The pattern of a status report: the header line with the unit's name and
/// description, the `Loaded:` line, the `Active:` line, then a `Trigger:` or
/// a `Triggers:` line and the `Docs:` block where they are there. Its groups
/// are, in order: name, description, load status, unit file path, enabled
/// state, preset, active state, active substate, trigger, triggers, docs.
pub const STATUS_PATTERN: &'static str = r#"(?x)
        ^●\s(?P<name>\S+)\s-\s(?P<description>.+?)\n
        \s+Loaded:\s(?P<loaded_status>\S+)\s\((?P<unit_file_path>[^;]+)(?:;\s(?P<enabled>\S+))?(?:;\s+preset:\s(?P<preset>\S+))?\)\n
        \s+Active:\s(?P<active>\S+)\s\((?P<active_state>[^)]+)\).*\n
        (?:\s+Trigger:\s(?P<trigger>.+)\n)?
        (?:\s+Triggers:\s●\s(?P<triggers>[^\n]+)\n)?
        (?:\s+Docs:\s(?P<docs>(?:.+\n(?:\s{7,}.+\n)*))?)?
        "#;

/// The error of the regex crate.
#[verifier::external_type_specification]
#[verifier::external_body]
pub struct ExRegexError(regex::Error);

/// What the regex crate finds: `None` where it does not accept `pattern`;
/// else what `Regex::captures` returns for the leftmost match of the compiled
/// pattern in `haystack`: `None` without a match, else for every group of the
/// pattern, the whole match being the first, the text that it captured, if
/// it took part in the match.
pub uninterp spec fn regex_captures(pattern: Seq<char>, haystack: Seq<char>) -> Option<
    Option<Seq<Option<Seq<char>>>>,
>;

/// The characters of each captured group.
pub open spec fn groups_view(groups: Seq<Option<String>>) -> Seq<Option<Seq<char>>> {
    Seq::new(groups.len(), |i: int| text_view(groups[i]))
}

/// The characters of the groups of a match, if there is one.
pub open spec fn found_view(found: Option<Vec<Option<String>>>) -> Option<Seq<Option<Seq<char>>>> {
    match found {
        Some(groups) => Some(groups_view(groups@)),
        None => None,
    }
}

/// Compiles `pattern` with `Regex::new` and searches `haystack` with
/// `Regex::captures`, both of the regex crate. The groups of the match are
/// handed out as owned strings, in the order of `Captures::iter`. The result
/// depends on the two texts alone.
#[verifier::external_body]
fn captures(pattern: &str, haystack: &str) -> (r: Result<Option<Vec<Option<String>>>, regex::Error>)
    ensures
        match r {
            Ok(found) => regex_captures(pattern@, haystack@) == Some(found_view(found)),
            Err(_) => regex_captures(pattern@, haystack@) is None,
        },
{
    let compiled = regex::Regex::new(pattern)?;
    Ok(
        compiled.captures(haystack).map(
            |found| found.iter().map(|group| group.map(|m| m.as_str().to_string())).collect(),
        ),
    )
}

/// The service without any field.
pub open spec fn absent() -> ServiceView {
    ServiceView {
        name: None,
        description: None,
        loaded_status: None,
        unit_file_path: None,
        enabled: None,
        preset: None,
        active: None,
        active_state: None,
        trigger: None,
        triggers: None,
        docs: None,
    }
}

/// What the group with index `i` captured.
pub open spec fn group(groups: Seq<Option<Seq<char>>>, i: int) -> Option<Seq<char>> {
    if 0 <= i < groups.len() {
        groups[i]
    } else {
        None
    }
}

/// The text `text` without the white space around it, if it is there.
pub open spec fn trimmed_text(text: Option<Seq<char>>) -> Option<Seq<char>> {
    match text {
        Some(s) => Some(trimmed(s)),
        None => None,
    }
}

/// The service that the groups of a match describe, and the service without
/// any field where nothing matched. The docs lose the white space around
/// them.
pub open spec fn service_of(found: Option<Seq<Option<Seq<char>>>>) -> ServiceView {
    match found {
        Some(groups) => ServiceView {
            name: group(groups, 1),
            description: group(groups, 2),
            loaded_status: group(groups, 3),
            unit_file_path: group(groups, 4),
            enabled: group(groups, 5),
            preset: group(groups, 6),
            active: group(groups, 7),
            active_state: group(groups, 8),
            trigger: group(groups, 9),
            triggers: group(groups, 10),
            docs: trimmed_text(group(groups, 11)),
        },
        None => absent(),
    }
}

/// The service that the report `input` describes.
pub open spec fn parsed(input: Seq<char>) -> ServiceView {
    match regex_captures(STATUS_PATTERN@, input) {
        Some(found) => service_of(found),
        None => absent(),
    }
}

/// What the group with index `i` captured.
fn captured(groups: &Vec<Option<String>>, i: usize) -> (text: Option<String>)
    ensures
        text_view(text) == group(groups_view(groups@), i as int),
{
    if i < groups.len() {
        groups[i].clone()
    } else {
        None
    }
}

impl Service {
    /// The service without any field.
    pub fn none() -> (svc: Service)
        ensures
            svc@ == absent(),
    {
        Service {
            name: None,
            description: None,
            loaded_status: None,
            unit_file_path: None,
            enabled: None,
            preset: None,
            active: None,
            active_state: None,
            trigger: None,
            triggers: None,
            docs: None,
        }
    }

    /// Whether the service has no field at all: it then stands for a unit
    /// that is no app.
    pub fn all_fields_none(&self) -> (b: bool)
        ensures
            b == (self@ == absent()),
    {
        self.name.is_none() && self.description.is_none() && self.loaded_status.is_none()
            && self.unit_file_path.is_none() && self.enabled.is_none() && self.preset.is_none()
            && self.active.is_none() && self.active_state.is_none() && self.trigger.is_none()
            && self.triggers.is_none() && self.docs.is_none()
    }
}

/// The service that the groups of a match describe.
pub fn service_from_captures(found: Option<Vec<Option<String>>>) -> (svc: Service)
    ensures
        svc@ == service_of(found_view(found)),
{
    match found {
        Some(groups) => {
            let docs = match captured(&groups, 11) {
                Some(text) => Some(to_text(&trim(&to_chars(text.as_str())))),
                None => None,
            };
            Service {
                name: captured(&groups, 1),
                description: captured(&groups, 2),
                loaded_status: captured(&groups, 3),
                unit_file_path: captured(&groups, 4),
                enabled: captured(&groups, 5),
                preset: captured(&groups, 6),
                active: captured(&groups, 7),
                active_state: captured(&groups, 8),
                trigger: captured(&groups, 9),
                triggers: captured(&groups, 10),
                docs,
            }
        },
        None => Service::none(),
    }
}

/// The service that the report `input` describes.
pub fn parse_service(input: String) -> (svc: Service)
    ensures
        svc@ == parsed(input@),
{
    match captures(STATUS_PATTERN, input.as_str()) {
        Ok(found) => service_from_captures(found),
        Err(_) => Service::none(),
    }
}

/// The ending of the names of service units: `.service`.
pub open spec fn service_suffix() -> Seq<char> {
    seq!['.', 's', 'e', 'r', 'v', 'i', 'c', 'e']
}

/// Whether the unit named `name` is a service.
pub fn is_service_unit(name: &str) -> (b: bool)
    ensures
        b == ends_with(name@, service_suffix()),
{
    let suffix = vec!['.', 's', 'e', 'r', 'v', 'i', 'c', 'e'];
    assert(suffix@ =~= service_suffix());
    has_suffix(&to_chars(name), &suffix)
}

/// The text of a report; of a report that could not be had, the empty text.
pub open spec fn report_text(report: Option<Seq<char>>) -> Seq<char> {
    match report {
        Some(text) => text,
        None => Seq::empty(),
    }
}

/// The services that `reports` describe, in order, without those that have
/// no field.
pub open spec fn listed(reports: Seq<Option<Seq<char>>>) -> Seq<ServiceView>
    decreases reports.len(),
{
    if reports.len() == 0 {
        Seq::empty()
    } else {
        let before = listed(reports.drop_last());
        let svc = parsed(report_text(reports.last()));
        if svc == absent() {
            before
        } else {
            before.push(svc)
        }
    }
}

/// The views of `services`, in order.
pub open spec fn service_views(services: Seq<Service>) -> Seq<ServiceView> {
    Seq::new(services.len(), |i: int| services[i]@)
}

/// A listing holds no service without fields, and every service in it is
/// described by one of the reports.
pub proof fn lemma_listed(reports: Seq<Option<Seq<char>>>, i: int)
    requires
        0 <= i < listed(reports).len(),
    ensures
        listed(reports)[i] != absent(),
        exists|k: int| 0 <= k < reports.len() && listed(reports)[i] == parsed(report_text(reports[k])),
    decreases reports.len(),
{
    let before = listed(reports.drop_last());
    if i < before.len() {
        lemma_listed(reports.drop_last(), i);
        let k = choose|k: int|
            0 <= k < reports.drop_last().len() && before[i] == parsed(
                report_text(reports.drop_last()[k]),
            );
        assert(reports.drop_last()[k] == reports[k]);
    } else {
        assert(listed(reports)[i] == parsed(report_text(reports[reports.len() - 1])));
    }
}

/// The services that `reports` describe, one report for each service unit,
/// `None` where the service manager gave none. Units that are no apps are
/// left out.
pub fn get_apps(reports: Vec<Option<String>>) -> (services: Vec<Service>)
    ensures
        service_views(services@) == listed(groups_view(reports@)),
{
    let ghost all = groups_view(reports@);
    let mut services: Vec<Service> = Vec::new();
    let mut i: usize = 0;
    assert(all.take(0) =~= Seq::<Option<Seq<char>>>::empty());
    while i < reports.len()
        invariant
            i <= reports.len(),
            all == groups_view(reports@),
            service_views(services@) == listed(all.take(i as int)),
        decreases reports.len() - i,
    {
        let text = match &reports[i] {
            Some(report) => report.clone(),
            None => String::new(),
        };
        let svc = parse_service(text);
        proof {
            assert(all.take(i + 1).drop_last() =~= all.take(i as int));
            assert(all.take(i + 1).last() == all[i as int]);
            assert(svc@ == parsed(report_text(all[i as int])));
        }
        let ghost before = service_views(services@);
        if !svc.all_fields_none() {
            services.push(svc);
            assert(service_views(services@) =~= before.push(svc@));
        }
        i += 1;
    }
    assert(all.take(i as int) =~= all);
    services
}

} // verus!
