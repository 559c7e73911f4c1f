use std::collections::BTreeSet;

use tradesession::{make_time, SessionError, SessionSlice, TimeOfDay, TradeSession};

fn spans(session: &TradeSession) -> Vec<(u32, u32)> {
    session.get_slices().iter().map(|s| (s.begin().seconds(), s.end().seconds())).collect()
}

#[test]
fn an_empty_session_has_the_defaults() {
    let s = TradeSession::new();
    assert!(s.get_slices().is_empty());
    assert_eq!(*s.day_begin(), make_time(9, 0, 0));
    assert_eq!(*s.day_end(), make_time(15, 0, 0));
    assert_eq!(*s.morning_begin(), make_time(9, 0, 0));
    assert!(!s.has_night());
    assert!(!s.in_session(&make_time(10, 0, 0), true, true));
    assert!(!s.any_in_session(&make_time(0, 0, 0), &make_time(19, 0, 0), true));
    assert!(s.minutes_list().is_empty());
}

#[test]
fn normalizing_an_empty_session_changes_nothing() {
    let mut s = TradeSession::new();
    s.post_fix();
    assert!(s.get_slices().is_empty());
    assert_eq!(*s.day_begin(), make_time(9, 0, 0));
    assert_eq!(*s.day_end(), make_time(15, 0, 0));
    assert_eq!(*s.morning_begin(), make_time(9, 0, 0));
    let from_none = TradeSession::new_from_slices(&vec![]);
    assert!(from_none.get_slices().is_empty());
    assert_eq!(*from_none.day_begin(), make_time(9, 0, 0));
}

#[test]
fn commodity_night_preset() {
    let s = TradeSession::new_commodity_session_night();
    assert_eq!(
        spans(&s),
        vec![(3600, 23400), (46800, 51300), (52200, 55800), (63000, 68400)]
    );
    assert!(s.in_session(&make_time(9, 59, 10), true, false));
    assert!(!s.in_session(&make_time(8, 59, 10), true, false));
    assert!(s.in_session(&make_time(0, 59, 10), true, false));
    assert!(!s.in_session(&make_time(20, 59, 10), true, false));
    assert!(s.has_night());
    assert_eq!(*s.day_begin(), make_time(21, 0, 0));
    assert_eq!(*s.day_end(), make_time(15, 0, 0));
    assert_eq!(*s.morning_begin(), make_time(9, 0, 0));
}

#[test]
fn the_other_presets() {
    let stock = TradeSession::new_stock_session();
    assert_eq!(spans(&stock), vec![(48600, 55800), (61200, 68400)]);
    assert_eq!(*stock.day_begin(), make_time(9, 30, 0));
    assert_eq!(*stock.day_end(), make_time(15, 0, 0));
    assert_eq!(*stock.morning_begin(), make_time(9, 30, 0));
    assert!(!stock.has_night());

    let index = TradeSession::new_stock_index_session();
    assert_eq!(spans(&index), spans(&stock));

    let bond = TradeSession::new_bond_session();
    assert_eq!(spans(&bond), vec![(48600, 55800), (61200, 69300)]);
    assert_eq!(*bond.day_begin(), make_time(9, 30, 0));
    assert_eq!(*bond.day_end(), make_time(15, 15, 0));
    assert!(bond.in_session(&make_time(15, 14, 59), true, false));
    assert!(!bond.in_session(&make_time(15, 15, 0), true, false));

    let commodity = TradeSession::new_commodity_session();
    assert_eq!(spans(&commodity), vec![(46800, 51300), (52200, 55800), (63000, 68400)]);
    assert_eq!(*commodity.day_begin(), make_time(9, 0, 0));
    assert_eq!(*commodity.day_end(), make_time(15, 0, 0));
    assert_eq!(*commodity.morning_begin(), make_time(9, 0, 0));
    assert!(!commodity.has_night());

    let full = TradeSession::new_full_session();
    assert_eq!(spans(&full), vec![(3600, 23400), (46800, 55800), (61200, 69300)]);
    assert_eq!(*full.day_begin(), make_time(21, 0, 0));
    assert_eq!(*full.day_end(), make_time(15, 15, 0));
    assert_eq!(*full.morning_begin(), make_time(9, 0, 0));
    assert!(full.has_night());
}

#[test]
fn adjacent_slices_merge() {
    let mut s = TradeSession::new();
    s.add_slice(9, 0, 9, 5).unwrap();
    s.add_slice(9, 5, 9, 10).unwrap();
    s.post_fix();
    assert_eq!(spans(&s), vec![(46800, 47400)]);
    assert_eq!(*s.day_begin(), make_time(9, 0, 0));
    assert_eq!(*s.day_end(), make_time(9, 10, 0));
}

#[test]
fn overlapping_and_unordered_slices_merge() {
    let mut s = TradeSession::new();
    s.add_slice(13, 30, 15, 0).unwrap();
    s.add_slice(9, 0, 10, 0).unwrap();
    s.add_slice(9, 30, 10, 15).unwrap();
    s.add_slice(9, 0, 10, 0).unwrap();
    s.add_slice(21, 0, 23, 0).unwrap();
    s.add_slice(22, 0, 2, 30).unwrap();
    s.post_fix();
    assert_eq!(spans(&s), vec![(3600, 23400), (46800, 51300), (63000, 68400)]);
    assert_eq!(*s.day_begin(), make_time(21, 0, 0));
    assert_eq!(*s.morning_begin(), make_time(9, 0, 0));
    assert_eq!(*s.day_end(), make_time(15, 0, 0));
}

#[test]
fn slices_a_minute_apart_stay_apart() {
    let mut s = TradeSession::new();
    s.add_slice(9, 0, 9, 5).unwrap();
    s.add_slice(9, 6, 9, 10).unwrap();
    s.post_fix();
    assert_eq!(spans(&s), vec![(46800, 47100), (47160, 47400)]);
}

#[test]
fn normalization_is_idempotent() {
    let mut s = TradeSession::new();
    s.add_slice(10, 30, 11, 30).unwrap();
    s.add_slice(9, 0, 10, 15).unwrap();
    s.add_slice(10, 0, 10, 40).unwrap();
    s.add_slice(21, 0, 2, 30).unwrap();
    s.post_fix();
    let once = spans(&s);
    let heads = (*s.day_begin(), *s.day_end(), *s.morning_begin());
    s.post_fix();
    assert_eq!(spans(&s), once);
    assert_eq!((*s.day_begin(), *s.day_end(), *s.morning_begin()), heads);
    assert_eq!(once, vec![(3600, 23400), (46800, 55800)]);
}

#[test]
fn normalization_drops_what_covers_no_whole_minute() {
    let mut s = TradeSession::new();
    s.add_slice_directly(SessionSlice::new(&make_time(9, 0, 10), &make_time(9, 0, 40)).unwrap());
    s.post_fix();
    assert!(s.get_slices().is_empty());
    // The headline instants stay as they were.
    assert_eq!(*s.day_begin(), make_time(9, 0, 0));
    assert_eq!(*s.day_end(), make_time(15, 0, 0));
}

#[test]
fn normalization_aligns_to_whole_minutes() {
    let mut s = TradeSession::new();
    s.add_slice_directly(SessionSlice::new(&make_time(9, 0, 30), &make_time(9, 2, 30)).unwrap());
    s.post_fix();
    assert_eq!(spans(&s), vec![(46800, 46920)]);
}

#[test]
fn minutes_round_trip() {
    let sets: Vec<Vec<u16>> = vec![
        vec![],
        vec![0],
        vec![1438],
        vec![0, 1438],
        vec![0, 1, 2, 3],
        vec![5, 7, 9],
        vec![780, 781, 782, 783, 784, 840, 841],
        (0..1439).collect(),
        (0..1439).filter(|m| m % 3 != 0).collect(),
    ];
    for minutes in sets {
        let set: BTreeSet<u16> = minutes.into_iter().collect();
        let session = TradeSession::new_from_minutes(set.clone());
        assert_eq!(session.minutes_list(), set);
    }
}

#[test]
fn runs_of_minutes_become_slices() {
    let set: BTreeSet<u16> = [5, 6, 7, 9, 20, 21].into_iter().collect();
    let session = TradeSession::new_from_minutes(set);
    assert_eq!(spans(&session), vec![(300, 480), (540, 600), (1200, 1320)]);
    // Shifted 00:05 is nominal 20:05, shifted 00:22 is nominal 20:22.
    assert_eq!(*session.day_begin(), make_time(20, 5, 0));
    assert_eq!(*session.day_end(), make_time(20, 22, 0));
    assert_eq!(*session.morning_begin(), make_time(20, 5, 0));

    let whole: BTreeSet<u16> = (0..1439).collect();
    let session = TradeSession::new_from_minutes(whole);
    assert_eq!(spans(&session), vec![(0, 86340)]);
}

#[test]
fn loading_no_minutes_empties_the_slices_and_keeps_the_headlines() {
    let mut s = TradeSession::new_commodity_session_night();
    s.load_from_minutes(BTreeSet::new());
    assert!(s.get_slices().is_empty());
    assert_eq!(*s.day_begin(), make_time(21, 0, 0));
    assert_eq!(*s.day_end(), make_time(15, 0, 0));
    assert_eq!(*s.morning_begin(), make_time(9, 0, 0));
}

#[test]
fn morning_begin_is_the_first_slice_that_begins_in_the_morning() {
    // Shifted [36000, 54000) is nominal [06:00, 11:00).
    let mut s = TradeSession::new();
    s.add_slice(21, 0, 23, 0).unwrap();
    s.add_slice(6, 0, 7, 0).unwrap();
    s.add_slice(9, 0, 10, 0).unwrap();
    s.post_fix();
    assert_eq!(*s.morning_begin(), make_time(6, 0, 0));
    assert_eq!(*s.day_begin(), make_time(21, 0, 0));

    let mut s = TradeSession::new();
    s.add_slice(21, 0, 23, 0).unwrap();
    s.add_slice(5, 59, 6, 0).unwrap();
    s.add_slice(10, 59, 11, 30).unwrap();
    s.post_fix();
    assert_eq!(*s.morning_begin(), make_time(10, 59, 0));

    // No slice begins in the morning: the morning begins with the day.
    let mut s = TradeSession::new();
    s.add_slice(21, 0, 23, 0).unwrap();
    s.add_slice(11, 0, 12, 0).unwrap();
    s.add_slice(13, 0, 15, 0).unwrap();
    s.post_fix();
    assert_eq!(*s.morning_begin(), make_time(21, 0, 0));
    assert_eq!(*s.day_end(), make_time(15, 0, 0));
}

#[test]
fn fix_day_begin_end_reads_the_list_as_it_stands() {
    let mut s = TradeSession::new();
    s.add_slice(13, 0, 15, 0).unwrap();
    s.add_slice(9, 30, 11, 30).unwrap();
    s.fix_day_begin_end();
    assert_eq!(*s.day_begin(), make_time(13, 0, 0));
    assert_eq!(*s.day_end(), make_time(11, 30, 0));
    assert_eq!(*s.morning_begin(), make_time(9, 30, 0));
    assert_eq!(spans(&s), vec![(61200, 68400), (48600, 55800)]);
}

#[test]
fn add_slice_refuses_a_backward_range() {
    let mut s = TradeSession::new();
    assert_eq!(s.add_slice(10, 0, 9, 0), Err(SessionError::InvalidRange));
    assert!(s.get_slices().is_empty());
    assert_eq!(s.add_slice(9, 0, 10, 0), Ok(()));
    assert_eq!(s.get_slices().len(), 1);
}

#[test]
fn slices_can_be_added_and_changed_directly() {
    let mut s = TradeSession::new();
    s.add_slice_directly(SessionSlice::new_from_time(13, 0, 15, 0).unwrap())
        .add_slice_directly(SessionSlice::new_from_time(9, 30, 11, 30).unwrap());
    assert_eq!(spans(&s), vec![(61200, 68400), (48600, 55800)]);
    s.get_slices_mut().pop();
    s.get_slices_mut().push(SessionSlice::new_from_time(14, 0, 15, 15).unwrap());
    s.post_fix();
    assert_eq!(spans(&s), vec![(61200, 69300)]);
}

#[test]
fn in_session_with_flags() {
    let s = TradeSession::new_commodity_session();
    let begin = make_time(10, 30, 0);
    let end = make_time(11, 30, 0);
    assert!(s.in_session(&begin, true, false));
    assert!(!s.in_session(&begin, false, false));
    assert!(!s.in_session(&end, true, false));
    assert!(s.in_session(&end, true, true));
    assert!(s.in_session(&end, false, true));
    assert!(!s.in_session(&make_time(10, 20, 0), true, true));
    let part = TimeOfDay::from_hms_nano(10, 29, 59, 500).unwrap();
    assert!(s.in_session(&part, true, false));
}

#[test]
fn any_in_session_with_and_without_bounds() {
    let s = TradeSession::new_commodity_session();
    // Inside the break from 10:15 to 10:30.
    assert!(!s.any_in_session(&make_time(10, 16, 0), &make_time(10, 29, 0), true));
    assert!(!s.any_in_session(&make_time(10, 16, 0), &make_time(10, 29, 0), false));
    // Touching the two slices round the break.
    assert!(s.any_in_session(&make_time(10, 15, 0), &make_time(10, 20, 0), true));
    assert!(!s.any_in_session(&make_time(10, 15, 0), &make_time(10, 20, 0), false));
    assert!(s.any_in_session(&make_time(10, 20, 0), &make_time(10, 30, 0), true));
    assert!(!s.any_in_session(&make_time(10, 20, 0), &make_time(10, 30, 0), false));
    // Overlapping.
    assert!(s.any_in_session(&make_time(10, 0, 0), &make_time(10, 20, 0), false));
    assert!(s.any_in_session(&make_time(8, 0, 0), &make_time(16, 0, 0), false));
    // Before and after the day.
    assert!(!s.any_in_session(&make_time(7, 0, 0), &make_time(8, 0, 0), true));
    assert!(!s.any_in_session(&make_time(15, 0, 1), &make_time(16, 0, 0), true));
}

#[test]
fn session_as_text() {
    let s = TradeSession::new_stock_session();
    assert_eq!(
        s.to_string(),
        "day_begin:09:30, morning_begin:09:30, day_end:15:00\n1: raw(13:30~15:30), act(09:30~11:30)\n2: raw(17:00~19:00), act(13:00~15:00)"
    );
    assert_eq!(
        TradeSession::new().to_string(),
        "day_begin:09:00, morning_begin:09:00, day_end:15:00"
    );
}

#[test]
fn a_copy_is_independent() {
    let mut s = TradeSession::new_stock_session();
    let copy = s.clone();
    s.add_slice(21, 0, 23, 0).unwrap();
    s.post_fix();
    assert_eq!(spans(&copy), vec![(48600, 55800), (61200, 68400)]);
    assert_eq!(*copy.day_begin(), make_time(9, 30, 0));
    assert_eq!(spans(&s).len(), 3);
}

#[test]
fn minutes_round_trip_on_scattered_sets() {
    let mut state: u64 = 0x2545F4914F6CDD1D;
    for round in 0..40u64 {
        let mut set: BTreeSet<u16> = BTreeSet::new();
        let density = 1 + round % 7;
        for minute in 0..1439u16 {
            state = state.wrapping_mul(6364136223846793005).wrapping_add(1442695040888963407);
            if (state >> 33) % 8 < density {
                set.insert(minute);
            }
        }
        let session = TradeSession::new_from_minutes(set.clone());
        assert_eq!(session.minutes_list(), set);
        // The slices are in order, apart, and on whole minutes.
        let list = spans(&session);
        for (begin, end) in &list {
            assert!(begin < end);
            assert_eq!(begin % 60, 0);
            assert_eq!(end % 60, 0);
        }
        for pair in list.windows(2) {
            assert!(pair[0].1 < pair[1].0);
        }
        // Normalizing again changes nothing.
        let mut again = session.clone();
        again.post_fix();
        assert_eq!(spans(&again), list);
    }
}
