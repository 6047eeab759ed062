use condesate::faraday::diary::{Diary, EntryKind, InMemoryDiary, NewDiaryEntry};
use condesate::faraday::ideabook::{IdeaBook, InMemoryIdeaBook};
use condesate::faraday::index::{
    InMemorySlipIndex, Menu, SheetComposer, Slip, SlipIndex, StandardComposer,
};
use condesate::security::audit::FixedClock;
use condesate::types::HarnessId;

fn diary() -> InMemoryDiary<FixedClock> {
    InMemoryDiary::new(FixedClock(1_000))
}

fn entry(content: &str) -> NewDiaryEntry {
    NewDiaryEntry {
        harness: HarnessId::new("worker"),
        activation: "act-1".into(),
        kind: EntryKind::Observation,
        content: content.into(),
        refs: vec![],
    }
}

#[test]
fn addresses_are_permanent_and_monotonic() {
    let mut d = diary();
    let a = d.record(entry("first")).unwrap();
    let b = d.record(entry("second")).unwrap();
    let c = d.record(entry("third")).unwrap();
    assert_eq!((a, b, c), (1, 2, 3));
    assert_eq!(d.len().unwrap(), 3);

    // The address still resolves to the same content it was given,
    // regardless of what has been recorded since.
    assert_eq!(d.entry(a).unwrap().unwrap().content, "first");
}

#[test]
fn missing_address_is_none_not_an_error() {
    let mut d = diary();
    d.record(entry("only entry")).unwrap();
    assert!(d.entry(0).unwrap().is_none());
    assert!(d.entry(99).unwrap().is_none());
}

#[test]
fn window_returns_neighbors_not_just_the_hit() {
    // Entry 3 alone is uninterpretable; radius 1 recovers the setup and
    // result around it.
    let mut d = diary();
    for content in [
        "set up coil A near the magnet",
        "no deflection observed yet",
        "deflection!",
        "repeated with coil B, same result",
        "concluded: motion of magnet induces current",
    ] {
        d.record(entry(content)).unwrap();
    }

    let bare = d.entry(3).unwrap().unwrap();
    assert_eq!(bare.content, "deflection!");

    let windowed = d.window(3, 1).unwrap();
    let contents: Vec<&str> = windowed.iter().map(|e| e.content.as_str()).collect();
    assert_eq!(
        contents,
        vec![
            "no deflection observed yet",
            "deflection!",
            "repeated with coil B, same result",
        ]
    );
}

#[test]
fn window_near_the_edges_omits_missing_neighbors_rather_than_padding() {
    let mut d = diary();
    for content in ["a", "b", "c"] {
        d.record(entry(content)).unwrap();
    }
    let start = d.window(1, 2).unwrap();
    assert_eq!(start.len(), 3, "clipped to the start, not padded with empties");

    let end = d.window(3, 5).unwrap();
    assert_eq!(end.len(), 3, "clipped to the end");
}

#[test]
fn window_of_an_unknown_address_is_empty() {
    let mut d = diary();
    d.record(entry("only entry")).unwrap();
    assert!(d.window(50, 2).unwrap().is_empty());
}

#[test]
fn a_fresh_diary_is_empty() {
    let mut d = diary();
    assert!(d.is_empty().unwrap());
    d.record(entry("x")).unwrap();
    assert!(!d.is_empty().unwrap());
}

#[test]
fn an_entry_keeps_every_field_it_was_given() {
    let mut d = diary();
    let seq = d
        .record(NewDiaryEntry {
            harness: HarnessId::new("planner"),
            activation: "planner-3".into(),
            kind: EntryKind::Decision,
            content: "delegate".into(),
            refs: vec![7, 9],
        })
        .unwrap();
    let e = d.entry(seq).unwrap().unwrap();
    assert_eq!(e.seq, 1);
    assert_eq!(e.at_ms, 1_000);
    assert_eq!(e.harness, HarnessId::new("planner"));
    assert_eq!(e.activation, "planner-3");
    assert_eq!(e.kind, EntryKind::Decision);
    assert_eq!(e.refs, vec![7, 9]);
}

#[test]
fn a_window_of_radius_zero_is_the_entry_alone() {
    let mut d = diary();
    for content in ["a", "b", "c"] {
        d.record(entry(content)).unwrap();
    }
    let w = d.window(2, 0).unwrap();
    assert_eq!(w.len(), 1);
    assert_eq!(w[0].content, "b");
    assert_eq!(d.window(2, u32::MAX).unwrap().len(), 3);
}

fn seeded_diary() -> InMemoryDiary<FixedClock> {
    let mut d = diary();
    for content in [
        "set up coil A near the magnet",     // 1
        "no deflection observed yet",        // 2
        "deflection!",                       // 3
        "repeated with coil B, same result", // 4
        "concluded: motion induces current", // 5
        "unrelated: capacitor leakage test", // 6
    ] {
        d.record(entry(content)).unwrap();
    }
    d
}

fn slip(descriptor: &str, topic: &str, refs: Vec<u64>) -> Slip {
    Slip { descriptor: descriptor.into(), topic: topic.into(), refs }
}

#[test]
fn composed_sheet_carries_the_neighborhood_not_just_the_hit() {
    let diary = seeded_diary();
    let slip = slip("the induction result", "induction", vec![3]);

    let sheet = StandardComposer.compose("write up induction", &vec![slip], &diary, 1).unwrap();
    let contents: Vec<&str> = sheet.entries.iter().map(|e| e.content.as_str()).collect();
    assert_eq!(
        contents,
        vec!["no deflection observed yet", "deflection!", "repeated with coil B, same result"]
    );
    assert_eq!(sheet.purpose, "write up induction");
}

#[test]
fn composing_from_multiple_slips_dedupes_and_orders_by_address() {
    let diary = seeded_diary();
    let slips =
        vec![slip("result", "induction", vec![5]), slip("setup", "induction", vec![1])];
    // Radius 1 around #5 covers #4 to #6, radius 1 around #1 covers #1 and #2.
    let sheet = StandardComposer.compose("overview", &slips, &diary, 1).unwrap();
    let seqs: Vec<u64> = sheet.entries.iter().map(|e| e.seq).collect();
    let mut expected = seqs.clone();
    expected.sort();
    expected.dedup();
    assert_eq!(seqs, expected, "sorted and deduplicated by address");
    assert_eq!(seqs, vec![1, 2, 4, 5, 6]);
}

#[test]
fn overlapping_windows_meet_without_duplicates() {
    let diary = seeded_diary();
    let slips = vec![slip("late", "t", vec![4, 3]), slip("gone", "t", vec![40])];
    let sheet = StandardComposer.compose("overlap", &slips, &diary, 1).unwrap();
    let seqs: Vec<u64> = sheet.entries.iter().map(|e| e.seq).collect();
    assert_eq!(seqs, vec![2, 3, 4, 5]);
}

#[test]
fn slip_index_groups_by_topic_and_doubles_as_a_menu() {
    let mut index = InMemorySlipIndex::new();
    index.tag(slip("the induction result", "induction", vec![3])).unwrap();
    index.tag(slip("leakage", "capacitance", vec![6])).unwrap();

    assert_eq!(index.by_topic("induction").unwrap().len(), 1);
    assert_eq!(index.by_topic("unknown-topic").unwrap().len(), 0);

    let topics = Menu::topics(&index).unwrap();
    assert_eq!(topics, vec!["capacitance".to_string(), "induction".to_string()]);
}

#[test]
fn revision_strikes_the_old_entry_but_keeps_it_visible() {
    let mut book = InMemoryIdeaBook::new();
    let first = book.jot("induction", "maybe it's the wire moving").unwrap();
    let second = book.revise(first, "no — it's the flux changing").unwrap();

    let all = book.by_topic("induction").unwrap();
    assert_eq!(all.len(), 2, "the struck entry stays in the record");
    assert!(all.iter().find(|s| s.id == first).unwrap().struck);
    assert!(!all.iter().find(|s| s.id == second).unwrap().struck);
    assert_eq!(all.iter().find(|s| s.id == second).unwrap().supersedes, Some(first));
}

#[test]
fn live_returns_only_the_current_tip_of_each_chain() {
    let mut book = InMemoryIdeaBook::new();
    let a = book.jot("plan", "try approach A").unwrap();
    let b = book.revise(a, "approach A failed, try B").unwrap();
    let _c = book.revise(b, "B works, proceed").unwrap();
    book.jot("plan", "separately: also check edge cases").unwrap();

    let live = book.live("plan").unwrap();
    let contents: Vec<&str> = live.iter().map(|s| s.content.as_str()).collect();
    assert_eq!(contents, vec!["B works, proceed", "separately: also check edge cases"]);
}

#[test]
fn a_bare_strike_removes_an_idea_without_replacing_it() {
    let mut book = InMemoryIdeaBook::new();
    let dead_end = book.jot("plan", "try approach C").unwrap();
    book.strike(dead_end).unwrap();

    assert!(book.live("plan").unwrap().is_empty());
    assert_eq!(book.by_topic("plan").unwrap().len(), 1, "still in the history");
}

#[test]
fn topics_stay_independent() {
    let mut book = InMemoryIdeaBook::new();
    book.jot("induction", "idea A").unwrap();
    book.jot("capacitance", "idea B").unwrap();
    assert_eq!(book.by_topic("induction").unwrap().len(), 1);
    assert_eq!(book.by_topic("capacitance").unwrap().len(), 1);
}

#[test]
fn topics_lists_every_topic_jotted_under_exactly_once() {
    let mut book = InMemoryIdeaBook::new();
    book.jot("induction", "idea A").unwrap();
    book.jot("induction", "idea B").unwrap(); // same topic again
    book.jot("capacitance", "idea C").unwrap();
    assert_eq!(
        book.topics().unwrap(),
        vec!["capacitance".to_string(), "induction".to_string()]
    );
}

#[test]
fn an_unknown_speculation_can_be_neither_revised_nor_struck() {
    let mut book = InMemoryIdeaBook::new();
    book.jot("plan", "only one").unwrap();
    assert_eq!(book.revise(9, "x").unwrap_err().0, "no such speculation: 9");
    assert_eq!(book.strike(0).unwrap_err().0, "no such speculation: 0");
    assert_eq!(book.by_topic("plan").unwrap().len(), 1);
    assert_eq!(book.live("plan").unwrap().len(), 1);
}

#[test]
fn speculations_are_numbered_from_one() {
    let mut book = InMemoryIdeaBook::new();
    assert_eq!(book.jot("t", "a").unwrap(), 1);
    assert_eq!(book.jot("t", "b").unwrap(), 2);
    assert_eq!(book.revise(1, "c").unwrap(), 3);
    let ids: Vec<u64> = book.by_topic("t").unwrap().iter().map(|s| s.id).collect();
    assert_eq!(ids, vec![1, 2, 3]);
}
