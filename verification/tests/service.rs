//! Create, update and list-all over a fresh store.

use recurrent_events::handlers::{
    create_recurrent_event, get_all_recurrent_events, update_cleanup, update_install,
    update_recurrent_event,
};
use recurrent_events::store::{LinkBase, Store};
use recurrent_events::types::{
    AgentRecurrentEvent, EndPoint, OccurenceRestriction, Period, RecurrentEvent, TimeFrame,
};

fn draft(title: &str) -> RecurrentEvent {
    RecurrentEvent {
        title: title.to_string(),
        event_entry_header: 11,
        event_window: TimeFrame { start_ts: 1_000, end_ts: EndPoint::Ongoing },
        first_event_ts: 1_000,
        frequency_unit_of_event: Period::Weekly,
        timezone_offset: -5,
        min_number_of_occurences: 1,
        occurence_restriction: OccurenceRestriction::NoRestriction,
    }
}

fn live_current_targets(store: &Store, owner: u64) -> Vec<u64> {
    store
        .links
        .edges
        .iter()
        .filter(|e| {
            e.base == LinkBase::Agent(owner) && e.tag.0 == "current" && !e.tombstoned
        })
        .map(|e| e.target)
        .collect()
}

fn live_discovery_titles(store: &Store) -> Vec<String> {
    store
        .links
        .edges
        .iter()
        .filter(|e| matches!(e.base, LinkBase::Bucket(_)) && !e.tombstoned)
        .map(|e| e.tag.0.clone())
        .collect()
}

fn count_listed(list: &[AgentRecurrentEvent], owner: u64, r: &RecurrentEvent) -> usize {
    list.iter()
        .filter(|a| a.agent_pub_key == owner && a.recurrent_event == *r)
        .count()
}

#[test]
fn create_then_list_contains_once() {
    let mut store = Store::new();
    let owner = 7;
    let r = draft("Morning Run");
    let out = create_recurrent_event(&mut store, owner, r.clone());
    assert_eq!(out.agent_pub_key, owner);
    assert_eq!(out.recurrent_event, r);
    let all = get_all_recurrent_events(&store);
    assert_eq!(count_listed(&all, owner, &r), 1);
}

#[test]
fn create_then_update_leaves_one_current_and_history() {
    let mut store = Store::new();
    let owner = 7;
    let r1 = draft("Morning Run");
    let r2 = draft("Evening Walk");
    create_recurrent_event(&mut store, owner, r1.clone());
    update_recurrent_event(&mut store, owner, r2.clone());

    let currents = live_current_targets(&store, owner);
    assert_eq!(currents.len(), 1);
    let target = currents[0] as usize;
    assert_eq!(store.content.records[target], r2);

    // history preserved: both discovery edges live (titles land in
    // different buckets, so the update tombstoned nothing of r1's)
    let titles = live_discovery_titles(&store);
    assert!(titles.contains(&"Morning Run".to_string()));
    assert!(titles.contains(&"Evening Walk".to_string()));
    let all = get_all_recurrent_events(&store);
    assert_eq!(count_listed(&all, owner, &r1), 1);
    assert_eq!(count_listed(&all, owner, &r2), 1);
}

#[test]
fn update_in_same_bucket_tombstones_own_old_discovery_edge() {
    let mut store = Store::new();
    let owner = 7;
    let r1 = draft("weekly lunch");
    let r2 = draft("Weekly Standup");
    create_recurrent_event(&mut store, owner, r1.clone());
    update_recurrent_event(&mut store, owner, r2.clone());

    let titles = live_discovery_titles(&store);
    assert!(!titles.contains(&"weekly lunch".to_string()));
    assert!(titles.contains(&"Weekly Standup".to_string()));
    // the superseded record itself is still stored, only unreachable from
    // the live discovery index
    assert!(store.content.records.iter().any(|r| *r == r1));
}

#[test]
fn update_does_not_touch_other_owners_in_same_bucket() {
    let mut store = Store::new();
    let r1 = draft("weekly lunch");
    let r2 = draft("weekly review");
    let r3 = draft("Weekly Standup");
    create_recurrent_event(&mut store, 1, r1.clone());
    create_recurrent_event(&mut store, 2, r2.clone());
    update_recurrent_event(&mut store, 1, r3.clone());

    let titles = live_discovery_titles(&store);
    assert!(titles.contains(&"weekly review".to_string()));
    assert!(!titles.contains(&"weekly lunch".to_string()));
    assert_eq!(live_current_targets(&store, 2).len(), 1);
}

#[test]
fn update_twice_with_same_draft_converges() {
    let mut store = Store::new();
    let owner = 9;
    let r = draft("Moon Phase");
    create_recurrent_event(&mut store, owner, r.clone());
    update_recurrent_event(&mut store, owner, r.clone());
    let after_once = live_current_targets(&store, owner);
    let records_once = store.content.records.len();
    update_recurrent_event(&mut store, owner, r.clone());
    let after_twice = live_current_targets(&store, owner);
    assert_eq!(after_once, after_twice);
    assert_eq!(store.content.records.len(), records_once);
    // content addressing deduplicates: one record despite three calls
    assert_eq!(records_once, 1);
}

#[test]
fn interleaved_updates_keep_at_least_one_current() {
    let mut store = Store::new();
    let owner = 3;
    let r_a = draft("Morning Run");
    let r_b = draft("Movie Night");
    create_recurrent_event(&mut store, owner, draft("Moon Phase"));

    // both cleanup passes run before either install: the documented race
    let addr_a = update_cleanup(&mut store, owner, &r_a);
    let addr_b = update_cleanup(&mut store, owner, &r_b);
    update_install(&mut store, owner, &r_a, addr_a);
    update_install(&mut store, owner, &r_b, addr_b);

    let currents = live_current_targets(&store, owner);
    assert!(currents.len() >= 1);
    // the accepted transient plurality: both installs' edges survive
    assert_eq!(currents.len(), 2);
    // the next update's cleanup pass collapses it again
    update_recurrent_event(&mut store, owner, r_b.clone());
    assert_eq!(live_current_targets(&store, owner).len(), 1);
}

#[test]
fn three_records_all_listed_regardless_of_order() {
    let titles = ["Morning Run", "Movie Night", "Moon Phase"];
    let orders: [[usize; 3]; 3] = [[0, 1, 2], [2, 0, 1], [1, 2, 0]];
    for order in orders {
        let mut store = Store::new();
        for i in order {
            create_recurrent_event(&mut store, i as u64, draft(titles[i]));
        }
        let all = get_all_recurrent_events(&store);
        assert_eq!(all.len(), 3);
        for i in 0..3 {
            assert_eq!(count_listed(&all, i as u64, &draft(titles[i])), 1);
        }
    }
}

#[test]
fn duplicate_create_collapses_to_one_address_but_lists_twice() {
    let mut store = Store::new();
    let owner = 5;
    let r = draft("Morning Run");
    create_recurrent_event(&mut store, owner, r.clone());
    create_recurrent_event(&mut store, owner, r.clone());
    assert_eq!(store.content.records.len(), 1);
    let all = get_all_recurrent_events(&store);
    assert_eq!(count_listed(&all, owner, &r), 2);
}

#[test]
fn update_without_prior_create_installs_current() {
    let mut store = Store::new();
    let owner = 4;
    let r = draft("Moon Phase");
    update_recurrent_event(&mut store, owner, r.clone());
    let currents = live_current_targets(&store, owner);
    assert_eq!(currents.len(), 1);
    assert_eq!(store.content.records[currents[0] as usize], r);
}

#[test]
fn window_end_before_start_is_accepted_as_is() {
    // temporal consistency of the window is deliberately not validated here
    let mut store = Store::new();
    let owner = 8;
    let mut r = draft("Morning Run");
    r.event_window = TimeFrame { start_ts: 5_000, end_ts: EndPoint::FixedTimestamp(100) };
    create_recurrent_event(&mut store, owner, r.clone());
    let all = get_all_recurrent_events(&store);
    assert_eq!(count_listed(&all, owner, &r), 1);
}

#[test]
fn get_misses_on_unknown_address() {
    let store = Store::new();
    assert!(store.content.get(0).is_none());
}

#[test]
fn list_all_on_empty_store_is_empty() {
    let store = Store::new();
    assert!(get_all_recurrent_events(&store).is_empty());
}
