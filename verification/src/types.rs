//! The record entry types and their mathematical equality.

use vstd::prelude::*;

verus! {

/// End of a schedule's active window: open-ended or a fixed timestamp.
#[derive(Clone, Copy, PartialEq, Eq, Structural, Debug)]
pub enum EndPoint {
    Ongoing,
    FixedTimestamp(u64),
}

/// The window a schedule is active in.
#[derive(Clone, Copy, PartialEq, Eq, Structural, Debug)]
pub struct TimeFrame {
    pub start_ts: u64,
    pub end_ts: EndPoint,
}

/// How often an event recurs.  `Per24(n)` means every `n` hours.
#[derive(Clone, Copy, PartialEq, Eq, Structural, Debug)]
pub enum Period {
    Per24(u8),
    Hourly,
    Daily,
    Weekly,
    Biweekly,
    Monthly,
    Bimonthly,
    Annually,
    Biannually,
}

/// Restriction on which days occurrences may fall.
#[derive(Clone, Copy, PartialEq, Eq, Structural, Debug)]
pub enum OccurenceRestriction {
    OnlyWeekdays,
    OnlyWeekends,
    NoRestriction,
}

/// An immutable, content-addressed recurring-event record.
#[derive(Debug)]
pub struct RecurrentEvent {
    pub title: String,
    pub event_entry_header: u64,
    pub event_window: TimeFrame,
    pub first_event_ts: u64,
    pub frequency_unit_of_event: Period,
    pub timezone_offset: i8,
    pub min_number_of_occurences: u32,
    pub occurence_restriction: OccurenceRestriction,
}

/// Field-wise equality of two records; records with equal fields are
/// indistinguishable and collapse to one content address.
pub open spec fn content_eq(a: RecurrentEvent, b: RecurrentEvent) -> bool {
    &&& a.title@ == b.title@
    &&& a.event_entry_header == b.event_entry_header
    &&& a.event_window == b.event_window
    &&& a.first_event_ts == b.first_event_ts
    &&& a.frequency_unit_of_event == b.frequency_unit_of_event
    &&& a.timezone_offset == b.timezone_offset
    &&& a.min_number_of_occurences == b.min_number_of_occurences
    &&& a.occurence_restriction == b.occurence_restriction
}

impl Clone for RecurrentEvent {
    fn clone(&self) -> (res: Self)
        ensures
            res == *self,
    {
        RecurrentEvent {
            title: self.title.clone(),
            event_entry_header: self.event_entry_header,
            event_window: self.event_window,
            first_event_ts: self.first_event_ts,
            frequency_unit_of_event: self.frequency_unit_of_event,
            timezone_offset: self.timezone_offset,
            min_number_of_occurences: self.min_number_of_occurences,
            occurence_restriction: self.occurence_restriction,
        }
    }
}

impl PartialEq for RecurrentEvent {
    fn eq(&self, other: &Self) -> (r: bool) {
        self.title == other.title
        && self.event_entry_header == other.event_entry_header
        && self.event_window == other.event_window
        && self.first_event_ts == other.first_event_ts
        && self.frequency_unit_of_event == other.frequency_unit_of_event
        && self.timezone_offset == other.timezone_offset
        && self.min_number_of_occurences == other.min_number_of_occurences
        && self.occurence_restriction == other.occurence_restriction
    }
}

impl vstd::std_specs::cmp::PartialEqSpecImpl for RecurrentEvent {
    open spec fn obeys_eq_spec() -> bool {
        true
    }

    open spec fn eq_spec(&self, other: &Self) -> bool {
        content_eq(*self, *other)
    }
}

/// A record paired with the owner recorded on the edge that pointed at it.
#[derive(Clone, Debug)]
pub struct AgentRecurrentEvent {
    pub agent_pub_key: u64,
    pub recurrent_event: RecurrentEvent,
}

} // verus!
