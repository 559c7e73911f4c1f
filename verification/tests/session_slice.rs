use std::collections::BTreeSet;

use tradesession::{make_time, SessionError, SessionSlice, ShiftedTime, TimeOfDay};

#[test]
fn a_backward_range_is_invalid() {
    let r = SessionSlice::new(&make_time(10, 0, 0), &make_time(9, 0, 0));
    assert_eq!(r.err(), Some(SessionError::InvalidRange));
}

#[test]
fn an_empty_range_is_invalid() {
    let r = SessionSlice::new(&make_time(10, 0, 0), &make_time(10, 0, 0));
    assert_eq!(r.err(), Some(SessionError::InvalidRange));
    let r = SessionSlice::new_from_time(9, 0, 9, 0);
    assert_eq!(r.err(), Some(SessionError::InvalidRange));
    let r = SessionSlice::new_from_shifted(
        ShiftedTime::new_from_shifted(5),
        ShiftedTime::new_from_shifted(5),
    );
    assert_eq!(r.err(), Some(SessionError::InvalidRange));
}

#[test]
fn a_range_over_the_cut_is_invalid() {
    // Nominal 19:00 to 21:00 straddles the cut at 20:00.
    let r = SessionSlice::new_from_time(19, 0, 21, 0);
    assert_eq!(r.err(), Some(SessionError::InvalidRange));
    // Nominal 02:30 to 21:00 runs backwards in the shifted domain.
    let r = SessionSlice::new_from_time(2, 30, 21, 0);
    assert_eq!(r.err(), Some(SessionError::InvalidRange));
}

#[test]
fn a_night_range_is_valid() {
    let slice = SessionSlice::new(&make_time(21, 0, 0), &make_time(2, 30, 0)).unwrap();
    assert_eq!(slice.begin().seconds(), 3600);
    assert_eq!(slice.end().seconds(), 23400);
    assert!(slice.is_night());
    let slice = SessionSlice::new_from_time(20, 0, 19, 59).unwrap();
    assert_eq!(slice.begin().seconds(), 0);
    assert_eq!(slice.end().seconds(), 86340);
    assert!(!slice.is_night());
}

#[test]
fn night_is_a_begin_at_nominal_nine_in_the_evening() {
    let nine = ShiftedTime::from(make_time(21, 0, 0));
    assert_eq!(nine.seconds(), 3600);
    assert!(SessionSlice::new_from_time(21, 0, 23, 0).unwrap().is_night());
    assert!(SessionSlice::new_from_shifted(nine, ShiftedTime::new_from_shifted(3601))
        .unwrap()
        .is_night());
    assert!(!SessionSlice::new_from_time(21, 1, 23, 0).unwrap().is_night());
    assert!(!SessionSlice::new_from_time(20, 59, 23, 0).unwrap().is_night());
    assert!(!SessionSlice::new_from_time(9, 0, 10, 15).unwrap().is_night());
    let almost = SessionSlice::new(
        &TimeOfDay::from_hms_nano(20, 59, 59, 1).unwrap(),
        &make_time(23, 0, 0),
    )
    .unwrap();
    assert!(almost.is_night());
}

#[test]
fn in_slice_with_each_pair_of_flags() {
    let slice = SessionSlice::new_from_time(9, 0, 10, 15).unwrap();
    let begin = make_time(9, 0, 0);
    let end = make_time(10, 15, 0);
    let inside = make_time(9, 30, 0);
    let before = make_time(8, 59, 59);
    let after = make_time(10, 15, 1);

    assert!(slice.in_slice(&begin, true, true));
    assert!(slice.in_slice(&begin, true, false));
    assert!(!slice.in_slice(&begin, false, true));
    assert!(!slice.in_slice(&begin, false, false));

    assert!(slice.in_slice(&end, true, true));
    assert!(!slice.in_slice(&end, true, false));
    assert!(slice.in_slice(&end, false, true));
    assert!(!slice.in_slice(&end, false, false));

    for (ib, ie) in [(true, true), (true, false), (false, true), (false, false)] {
        assert!(slice.in_slice(&inside, ib, ie));
        assert!(!slice.in_slice(&before, ib, ie));
        assert!(!slice.in_slice(&after, ib, ie));
    }
}

#[test]
fn in_slice_counts_a_part_second_as_the_next_second() {
    let slice = SessionSlice::new_from_time(9, 0, 10, 15).unwrap();
    let just_before = TimeOfDay::from_hms_nano(8, 59, 59, 1).unwrap();
    assert!(slice.in_slice(&just_before, true, false));
    assert!(!slice.in_slice(&just_before, false, false));
    let just_before_end = TimeOfDay::from_hms_nano(10, 14, 59, 999_999_999).unwrap();
    assert!(!slice.in_slice(&just_before_end, true, false));
    assert!(slice.in_slice(&just_before_end, true, true));
}

#[test]
fn in_slice_over_midnight() {
    let slice = SessionSlice::new_from_time(21, 0, 2, 30).unwrap();
    assert!(slice.in_slice(&make_time(23, 59, 59), true, false));
    assert!(slice.in_slice(&make_time(0, 0, 0), true, false));
    assert!(slice.in_slice(&make_time(2, 29, 59), true, false));
    assert!(!slice.in_slice(&make_time(2, 30, 0), true, false));
    assert!(!slice.in_slice(&make_time(20, 59, 59), true, false));
    assert!(!slice.in_slice(&make_time(9, 0, 0), true, false));
}

#[test]
fn minutes_of_a_slice() {
    let slice = SessionSlice::new_from_time(9, 0, 9, 5).unwrap();
    let expected: BTreeSet<u16> = [780, 781, 782, 783, 784].into_iter().collect();
    assert_eq!(slice.minutes_list(), expected);

    let night = SessionSlice::new_from_time(21, 0, 21, 2).unwrap();
    let expected: BTreeSet<u16> = [60, 61].into_iter().collect();
    assert_eq!(night.minutes_list(), expected);

    let first = SessionSlice::new_from_time(20, 0, 20, 1).unwrap();
    let expected: BTreeSet<u16> = [0].into_iter().collect();
    assert_eq!(first.minutes_list(), expected);

    let last = SessionSlice::new_from_time(19, 58, 19, 59).unwrap();
    let expected: BTreeSet<u16> = [1438].into_iter().collect();
    assert_eq!(last.minutes_list(), expected);
}

#[test]
fn minutes_of_a_slice_off_the_minute() {
    // Begin 09:00:30, end 09:02:30: the begin minute counts, the end minute
    // does not.
    let slice = SessionSlice::new(&make_time(9, 0, 30), &make_time(9, 2, 30)).unwrap();
    let expected: BTreeSet<u16> = [780, 781].into_iter().collect();
    assert_eq!(slice.minutes_list(), expected);
    // Within one minute: no whole minute.
    let short = SessionSlice::new(&make_time(9, 0, 10), &make_time(9, 0, 40)).unwrap();
    assert!(short.minutes_list().is_empty());
}

#[test]
fn slice_as_text() {
    let slice = SessionSlice::new_from_time(9, 0, 10, 15).unwrap();
    assert_eq!(slice.to_string(), "raw(13:00~14:15), act(09:00~10:15)");
    let night = SessionSlice::new_from_time(21, 0, 2, 30).unwrap();
    assert_eq!(night.to_string(), "raw(01:00~06:30), act(21:00~02:30)");
}

#[test]
fn error_as_text() {
    assert_eq!(
        SessionError::MalformedRow.to_string(),
        "bad format session: expected 2 or 3 fields"
    );
    assert_eq!(
        SessionError::MalformedSessionJson.to_string(),
        "trade session text must be an array of begin and end times"
    );
    assert_eq!(SessionError::InvalidRange.to_string(), "SessionSlice: begin must less than end");
    assert_eq!(SessionError::ProductNotFound.to_string(), "session for product not found");
}
