use mzdata::pump::{InvalidSeek, XmlEventPump, TAIL_WINDOW};
use mzdata::seek::SeekFrom;
use mzdata::xml::{SourceEvent, XmlEvent};

fn spans(spans: &[(u64, u64)]) -> Vec<SourceEvent> {
    spans.iter().map(|&(start, end)| SourceEvent { event: XmlEvent::Other, start, end }).collect()
}

fn pump(events: &[(u64, u64)], length: u64) -> XmlEventPump {
    let tail = vec![7u8; length.min(TAIL_WINDOW) as usize];
    XmlEventPump::new(spans(events), length, tail).unwrap()
}

#[test]
fn the_tail_window_is_two_hundred_bytes() {
    assert_eq!(TAIL_WINDOW, 200);
}

#[test]
fn ordered_events_make_a_pump() {
    let pump = pump(&[(0, 5), (5, 9), (12, 20)], 25);
    assert_eq!(pump.event_count(), 3);
    assert_eq!(pump.stream_position(), 0);
    assert_eq!(pump.event(1).start, 5);
    assert_eq!(pump.event(2).end, 20);
    assert!(XmlEventPump::new(Vec::new(), 0, Vec::new()).is_some());
}

#[test]
fn events_out_of_order_are_refused() {
    let tail = || vec![0u8; 25];
    assert!(XmlEventPump::new(spans(&[(5, 9), (0, 5)]), 25, tail()).is_none());
    assert!(XmlEventPump::new(spans(&[(0, 6), (5, 9)]), 25, tail()).is_none());
    assert!(XmlEventPump::new(spans(&[(3, 3)]), 25, tail()).is_none());
    assert!(XmlEventPump::new(spans(&[(4, 3)]), 25, tail()).is_none());
    assert!(XmlEventPump::new(spans(&[(0, 26)]), 25, tail()).is_none());
    assert!(XmlEventPump::new(spans(&[(0, 5), (5, 9), (8, 12)]), 25, tail()).is_none());
    assert!(XmlEventPump::new(spans(&[(0, 25)]), 25, tail()).is_some());
}

#[test]
fn the_tail_must_fit_the_source() {
    assert!(XmlEventPump::new(Vec::new(), 25, vec![0; 24]).is_none());
    assert!(XmlEventPump::new(Vec::new(), 25, vec![0; 26]).is_none());
    assert!(XmlEventPump::new(Vec::new(), 200, vec![0; 200]).is_some());
    assert!(XmlEventPump::new(Vec::new(), 201, vec![0; 201]).is_none());
    assert!(XmlEventPump::new(Vec::new(), 201, vec![0; 200]).is_some());
    assert!(XmlEventPump::new(Vec::new(), u64::MAX, vec![0; 200]).is_some());
}

#[test]
fn advance_delivers_events_in_order() {
    let mut pump = pump(&[(2, 5), (5, 9), (12, 20)], 25);
    assert_eq!(pump.upcoming(), 0);
    assert_eq!(pump.advance(), Some(0));
    assert_eq!(pump.stream_position(), 5);
    assert_eq!(pump.advance(), Some(1));
    assert_eq!(pump.stream_position(), 9);
    assert_eq!(pump.upcoming(), 2);
    assert_eq!(pump.advance(), Some(2));
    assert_eq!(pump.stream_position(), 20);
    assert_eq!(pump.upcoming(), 3);
    assert_eq!(pump.advance(), None);
    assert_eq!(pump.stream_position(), 25);
    assert_eq!(pump.advance(), None);
    assert_eq!(pump.stream_position(), 25);
}

#[test]
fn reading_resumes_at_the_first_event_from_the_cursor() {
    let mut pump = pump(&[(2, 5), (5, 9), (12, 20)], 25);
    for (position, expected) in
        [(0u64, 0usize), (2, 0), (3, 1), (5, 1), (6, 2), (9, 2), (12, 2), (13, 3), (25, 3), (400, 3)]
    {
        assert_eq!(pump.seek(SeekFrom::Start(position)), Ok(position));
        assert_eq!(pump.upcoming(), expected, "at {}", position);
    }
    pump.seek(SeekFrom::Start(10)).unwrap();
    assert_eq!(pump.advance(), Some(2));
    pump.seek(SeekFrom::Start(400)).unwrap();
    assert_eq!(pump.advance(), None);
    assert_eq!(pump.stream_position(), 400);
}

#[test]
fn upcoming_agrees_with_a_linear_scan() {
    let events: Vec<(u64, u64)> = (0..100u64).map(|i| (10 * i + 3, 10 * i + 8)).collect();
    let mut pump = pump(&events, 1000);
    for position in 0..1010u64 {
        pump.seek(SeekFrom::Start(position)).unwrap();
        let expected = events.iter().filter(|e| e.0 < position).count();
        assert_eq!(pump.upcoming(), expected);
    }
}

#[test]
fn seeks_are_measured_from_start_end_and_cursor() {
    let mut pump = pump(&[], 1000);
    assert_eq!(pump.seek(SeekFrom::Start(10)), Ok(10));
    assert_eq!(pump.seek(SeekFrom::Current(5)), Ok(15));
    assert_eq!(pump.seek(SeekFrom::Current(-15)), Ok(0));
    assert_eq!(pump.seek(SeekFrom::Current(0)), Ok(0));
    assert_eq!(pump.seek(SeekFrom::End(0)), Ok(1000));
    assert_eq!(pump.seek(SeekFrom::End(-200)), Ok(800));
    assert_eq!(pump.seek(SeekFrom::End(50)), Ok(1050));
    assert_eq!(pump.seek(SeekFrom::End(-1000)), Ok(0));
    assert_eq!(pump.seek(SeekFrom::Start(u64::MAX)), Ok(u64::MAX));
    assert_eq!(pump.stream_position(), u64::MAX);
}

#[test]
fn seeks_out_of_range_fail_and_leave_the_cursor() {
    let mut pump = pump(&[], 1000);
    pump.seek(SeekFrom::Start(10)).unwrap();
    assert_eq!(pump.seek(SeekFrom::Current(-11)), Err(InvalidSeek));
    assert_eq!(pump.seek(SeekFrom::End(-1001)), Err(InvalidSeek));
    assert_eq!(pump.seek(SeekFrom::Current(i64::MIN)), Err(InvalidSeek));
    assert_eq!(pump.stream_position(), 10);
    pump.seek(SeekFrom::Start(u64::MAX)).unwrap();
    assert_eq!(pump.seek(SeekFrom::Current(1)), Err(InvalidSeek));
    assert_eq!(pump.stream_position(), u64::MAX);
}

#[test]
fn read_to_end_gives_the_rest_of_the_tail() {
    let tail: Vec<u8> = (0..200u8).collect();
    let mut pump = XmlEventPump::new(Vec::new(), 1000, tail.clone()).unwrap();
    assert_eq!(pump.read_to_end(), None);
    assert_eq!(pump.stream_position(), 0);
    pump.seek(SeekFrom::Start(799)).unwrap();
    assert_eq!(pump.read_to_end(), None);
    assert_eq!(pump.stream_position(), 799);
    pump.seek(SeekFrom::Start(800)).unwrap();
    assert_eq!(pump.read_to_end(), Some(tail.clone()));
    assert_eq!(pump.stream_position(), 1000);
    assert_eq!(pump.read_to_end(), Some(Vec::new()));
    pump.seek(SeekFrom::End(-3)).unwrap();
    assert_eq!(pump.read_to_end(), Some(vec![197, 198, 199]));
    pump.seek(SeekFrom::Start(5000)).unwrap();
    assert_eq!(pump.read_to_end(), Some(Vec::new()));
    assert_eq!(pump.stream_position(), 5000);

    let mut short = XmlEventPump::new(Vec::new(), 4, vec![1, 2, 3, 4]).unwrap();
    short.seek(SeekFrom::Start(1)).unwrap();
    assert_eq!(short.read_to_end(), Some(vec![2, 3, 4]));
}
