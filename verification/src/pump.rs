//! The event pump: successive XML events of a tokenized byte source, with a
//! cursor that counts in bytes of that source.

use crate::seek::SeekFrom;
use crate::xml::SourceEvent;
use vstd::prelude::*;

verus! {

/// How many bytes at the end of a source are kept for inspection.
pub const TAIL_WINDOW: u64 = 200;

/// A seek that would leave the cursor before the first byte, or at an offset
/// that does not fit in 64 bits.
#[derive(Clone, Copy, Debug, PartialEq, Eq)]
pub struct InvalidSeek;

/// The offset that a seek to `pos` aims at, from a cursor at `position` in a
/// source of `length` bytes.
pub open spec fn seek_target(pos: SeekFrom, position: u64, length: u64) -> int {
    match pos {
        SeekFrom::Start(offset) => offset as int,
        SeekFrom::End(delta) => length + delta,
        SeekFrom::Current(delta) => position + delta,
    }
}

/// The bytes from `position` to the end of a source of `length` bytes, of
/// which `tail` holds the last ones; `None` where `position` lies before the
/// bytes that `tail` holds.
pub open spec fn rest_of_source(tail: Seq<u8>, length: u64, position: u64) -> Option<Seq<u8>> {
    if position >= length {
        Some(Seq::<u8>::empty())
    } else if position >= length - tail.len() {
        Some(tail.skip(position - (length - tail.len())))
    } else {
        None
    }
}

/// The events lie one after the other within a source of `length` bytes, and
/// each spans at least one byte.
pub open spec fn ordered_spans(events: Seq<SourceEvent>, length: u64) -> bool {
    &&& forall|i: int| 0 <= i < events.len() ==> (#[trigger] events[i]).start < events[i].end
    &&& forall|i: int| 0 <= i < events.len() ==> (#[trigger] events[i]).end <= length
    &&& forall|i: int, j: int|
        0 <= i < j < events.len() ==> (#[trigger] events[i]).end <= (#[trigger] events[j]).start
}

/// How much of a source of `length` bytes the tail window holds.
pub open spec fn tail_length(length: u64) -> u64 {
    if length < TAIL_WINDOW {
        length
    } else {
        TAIL_WINDOW
    }
}

/// Whether `index` is the ordinal of the first event that starts at or after
/// byte `position`; the number of events where none does.
pub open spec fn is_next_event(events: Seq<SourceEvent>, position: u64, index: int) -> bool {
    &&& 0 <= index <= events.len()
    &&& forall|i: int| 0 <= i < index ==> (#[trigger] events[i]).start < position
    &&& forall|i: int| index <= i < events.len() ==> (#[trigger] events[i]).start >= position
}

/// The ordinal of the first event that starts at or after byte `position`.
pub open spec fn next_event(events: Seq<SourceEvent>, position: u64) -> int {
    choose|index: int| is_next_event(events, position, index)
}

/// Among ordered events the next event is unique.
pub proof fn lemma_next_event_unique(events: Seq<SourceEvent>, position: u64, index: int)
    requires
        is_next_event(events, position, index),
    ensures
        next_event(events, position) == index,
{
    let other = next_event(events, position);
    if other < index {
        assert(events[other].start < position);
    } else if index < other {
        assert(events[index].start < position);
    }
}

/// Scans for the next event from ordinal `k` on.
proof fn lemma_scan_for_next_event(
    events: Seq<SourceEvent>,
    length: u64,
    position: u64,
    k: int,
) -> (index: int)
    requires
        ordered_spans(events, length),
        0 <= k <= events.len(),
        forall|i: int| 0 <= i < k ==> (#[trigger] events[i]).start < position,
    ensures
        is_next_event(events, position, index),
    decreases events.len() - k,
{
    if k == events.len() {
        k
    } else if events[k].start >= position {
        assert forall|i: int| k <= i < events.len() implies (#[trigger] events[i]).start
            >= position by {
            if k < i {
                assert(events[k].end <= events[i].start);
            }
        }
        k
    } else {
        lemma_scan_for_next_event(events, length, position, k + 1)
    }
}

/// Ordered events have a next event for every cursor position.
pub proof fn lemma_next_event_exists(events: Seq<SourceEvent>, length: u64, position: u64)
    requires
        ordered_spans(events, length),
    ensures
        is_next_event(events, position, next_event(events, position)),
{
    let index = lemma_scan_for_next_event(events, length, position, 0);
    lemma_next_event_unique(events, position, index);
}

/// Behind the end of an event the next event is the one that follows it.
pub proof fn lemma_next_event_follows(events: Seq<SourceEvent>, length: u64, i: int)
    requires
        ordered_spans(events, length),
        0 <= i < events.len(),
    ensures
        next_event(events, events[i].end) == i + 1,
{
    let position = events[i].end;
    assert forall|j: int| 0 <= j < i + 1 implies (#[trigger] events[j]).start < position by {
        if j < i {
            assert(events[j].end <= events[i].start);
        }
    }
    assert forall|j: int| i + 1 <= j < events.len() implies (#[trigger] events[j]).start
        >= position by {
        assert(events[i].end <= events[j].start);
    }
    lemma_next_event_unique(events, position, i + 1);
}

/// A tokenized byte source: its events in document order, each with the
/// bytes it spans, and a cursor. Reading delivers the first event that starts
/// at or after the cursor and moves the cursor to the end of that event.
#[derive(Debug)]
pub struct XmlEventPump {
    events: Vec<SourceEvent>,
    length: u64,
    tail: Vec<u8>,
    position: u64,
}

impl XmlEventPump {
    /// The events in document order.
    pub closed spec fn events(&self) -> Seq<SourceEvent> {
        self.events@
    }

    /// The length of the source in bytes.
    pub closed spec fn length(&self) -> u64 {
        self.length
    }

    /// The last bytes of the source.
    pub closed spec fn tail(&self) -> Seq<u8> {
        self.tail@
    }

    /// The cursor, in bytes from the start of the source.
    pub closed spec fn position(&self) -> u64 {
        self.position
    }

    /// The events are ordered within the source, and the tail has the length
    /// that the source allows.
    pub open spec fn wf(&self) -> bool {
        &&& ordered_spans(self.events(), self.length())
        &&& self.tail().len() == tail_length(self.length())
    }

    /// The same source as `other`: only the cursor may differ.
    pub open spec fn same_source(&self, other: &Self) -> bool {
        &&& self.events() == other.events()
        &&& self.length() == other.length()
        &&& self.tail() == other.tail()
    }

    /// A pump over the events of a source of `length` bytes that ends in the
    /// bytes `tail`, with the cursor at the start. `None` where the events
    /// overlap, are out of order or reach past the end of the source, or
    /// where `tail` is not as long as the tail window of the source.
    pub fn new(events: Vec<SourceEvent>, length: u64, tail: Vec<u8>) -> (r: Option<Self>)
        ensures
            match r {
                Some(pump) => {
                    &&& pump.wf()
                    &&& pump.events() == events@
                    &&& pump.length() == length
                    &&& pump.tail() == tail@
                    &&& pump.position() == 0
                },
                None => !(ordered_spans(events@, length) && tail@.len() == tail_length(length)),
            },
    {
        let expected: u64 = if length < TAIL_WINDOW {
            length
        } else {
            TAIL_WINDOW
        };
        if tail.len() as u64 != expected {
            return None;
        }
        let mut floor: u64 = 0;
        let mut i: usize = 0;
        while i < events.len()
            invariant
                i <= events@.len(),
                floor <= length,
                floor == if i == 0 {
                    0
                } else {
                    events@[i - 1].end
                },
                forall|k: int| 0 <= k < i ==> (#[trigger] events@[k]).start < events@[k].end,
                forall|k: int| 0 <= k < i ==> (#[trigger] events@[k]).end <= floor,
                forall|k: int, j: int|
                    0 <= k < j < i ==> (#[trigger] events@[k]).end <= (#[trigger] events@[j]).start,
            decreases events@.len() - i,
        {
            let start = events[i].start;
            let end = events[i].end;
            if start < floor || end <= start || end > length {
                proof {
                    if start < floor {
                        assert(events@[i - 1].end > events@[i as int].start);
                    }
                }
                return None;
            }
            floor = end;
            i = i + 1;
        }
        Some(XmlEventPump { events, length, tail, position: 0 })
    }

    /// A well-formed pump has a next event wherever its cursor stands.
    pub proof fn lemma_has_next_event(&self)
        requires
            self.wf(),
        ensures
            is_next_event(self.events(), self.position(), next_event(self.events(), self.position())),
    {
        lemma_next_event_exists(self.events@, self.length, self.position);
    }

    /// A pump over an empty source.
    pub fn empty() -> (r: Self)
        ensures
            r.wf(),
            r.events() == Seq::<SourceEvent>::empty(),
            r.length() == 0,
            r.tail() == Seq::<u8>::empty(),
            r.position() == 0,
    {
        XmlEventPump { events: Vec::new(), length: 0, tail: Vec::new(), position: 0 }
    }

    /// The cursor, in bytes from the start of the source.
    pub fn stream_position(&self) -> (r: u64)
        ensures
            r == self.position(),
    {
        self.position
    }

    /// The number of events of the source.
    pub fn event_count(&self) -> (r: usize)
        ensures
            r == self.events().len(),
    {
        self.events.len()
    }

    /// The event with ordinal `index`.
    pub fn event(&self, index: usize) -> (r: &SourceEvent)
        requires
            index < self.events().len(),
        ensures
            *r == self.events()[index as int],
    {
        &self.events[index]
    }

    /// Moves the cursor and returns its new offset. The cursor may be set
    /// past the end of the source, never before its start.
    pub fn seek(&mut self, pos: SeekFrom) -> (r: Result<u64, InvalidSeek>)
        ensures
            final(self).same_source(old(self)),
            final(self).wf() == old(self).wf(),
            match r {
                Ok(offset) => {
                    &&& offset == seek_target(pos, old(self).position(), old(self).length())
                    &&& final(self).position() == offset
                },
                Err(_) => {
                    &&& !(0 <= seek_target(pos, old(self).position(), old(self).length())
                        <= u64::MAX)
                    &&& final(self).position() == old(self).position()
                },
            },
    {
        let target: i128 = match pos {
            SeekFrom::Start(offset) => offset as i128,
            SeekFrom::End(delta) => self.length as i128 + delta as i128,
            SeekFrom::Current(delta) => self.position as i128 + delta as i128,
        };
        if target < 0 || target > u64::MAX as i128 {
            Err(InvalidSeek)
        } else {
            self.position = target as u64;
            Ok(self.position)
        }
    }

    /// The ordinal of the event that the next read delivers: the first that
    /// starts at or after the cursor.
    pub fn upcoming(&self) -> (r: usize)
        requires
            self.wf(),
        ensures
            r == next_event(self.events(), self.position()),
            is_next_event(self.events(), self.position(), r as int),
    {
        let mut low: usize = 0;
        let mut high: usize = self.events.len();
        while low < high
            invariant
                self.wf(),
                0 <= low <= high <= self.events@.len(),
                forall|i: int| 0 <= i < low ==> (#[trigger] self.events@[i]).start < self.position,
                forall|i: int|
                    high <= i < self.events@.len() ==> (#[trigger] self.events@[i]).start
                        >= self.position,
            decreases high - low,
        {
            let middle: usize = low + (high - low) / 2;
            if self.events[middle].start < self.position {
                proof {
                    assert forall|i: int| 0 <= i < middle + 1 implies (
                    #[trigger] self.events@[i]).start < self.position by {
                        if i < middle {
                            assert(self.events@[i].end <= self.events@[middle as int].start);
                        }
                    }
                }
                low = middle + 1;
            } else {
                proof {
                    assert forall|i: int| middle <= i < self.events@.len() implies (
                    #[trigger] self.events@[i]).start >= self.position by {
                        if middle < i {
                            assert(self.events@[middle as int].end <= self.events@[i].start);
                        }
                    }
                }
                high = middle;
            }
        }
        proof {
            lemma_next_event_unique(self.events@, self.position, low as int);
        }
        low
    }

    /// Reads the next event: returns the ordinal of the first event that
    /// starts at or after the cursor and moves the cursor to its end. At the
    /// end of the events it returns `None` and moves the cursor to the end of
    /// the source.
    pub fn advance(&mut self) -> (r: Option<usize>)
        requires
            old(self).wf(),
        ensures
            final(self).wf(),
            final(self).same_source(old(self)),
            final(self).position() >= old(self).position(),
            match r {
                Some(index) => {
                    &&& index == next_event(old(self).events(), old(self).position())
                    &&& index < old(self).events().len()
                    &&& final(self).position() == old(self).events()[index as int].end
                    &&& final(self).position() <= old(self).length()
                    &&& next_event(final(self).events(), final(self).position()) == index + 1
                },
                None => {
                    &&& next_event(old(self).events(), old(self).position()) == old(self).events().len()
                    &&& final(self).position() == if old(self).position() < old(self).length() {
                        old(self).length()
                    } else {
                        old(self).position()
                    }
                    &&& next_event(final(self).events(), final(self).position()) == old(self).events().len()
                },
            },
    {
        let index = self.upcoming();
        if index < self.events.len() {
            self.position = self.events[index].end;
            proof {
                let events = self.events@;
                assert forall|i: int| 0 <= i < index + 1 implies (#[trigger] events[i]).start
                    < self.position by {
                    if i < index {
                        assert(events[i].end <= events[index as int].start);
                    }
                }
                assert forall|i: int| index + 1 <= i < events.len() implies (
                #[trigger] events[i]).start >= self.position by {
                    assert(events[index as int].end <= events[i].start);
                }
                lemma_next_event_unique(events, self.position, index + 1);
            }
            Some(index)
        } else {
            if self.position < self.length {
                self.position = self.length;
            }
            proof {
                let events = self.events@;
                assert forall|i: int| 0 <= i < events.len() implies (#[trigger] events[i]).start
                    < self.position by {
                    assert(events[i].start < events[i].end);
                }
                lemma_next_event_unique(events, self.position, events.len() as int);
            }
            None
        }
    }

    /// Reads all bytes from the cursor to the end of the source and leaves
    /// the cursor at the end. Only the last bytes of a source are held: where
    /// the cursor lies before them the read fails and the cursor stays.
    pub fn read_to_end(&mut self) -> (r: Option<Vec<u8>>)
        requires
            old(self).wf(),
        ensures
            final(self).wf(),
            final(self).same_source(old(self)),
            match r {
                Some(bytes) => {
                    &&& Some(bytes@) == rest_of_source(
                        old(self).tail(),
                        old(self).length(),
                        old(self).position(),
                    )
                    &&& final(self).position() == if old(self).position() < old(self).length() {
                        old(self).length()
                    } else {
                        old(self).position()
                    }
                },
                None => {
                    &&& rest_of_source(old(self).tail(), old(self).length(), old(self).position())
                        is None
                    &&& final(self).position() == old(self).position()
                },
            },
    {
        let mut bytes: Vec<u8> = Vec::new();
        if self.position >= self.length {
            return Some(bytes);
        }
        let held: u64 = self.tail.len() as u64;
        if self.position < self.length - held {
            return None;
        }
        let first: usize = (self.position - (self.length - held)) as usize;
        let mut i: usize = first;
        while i < self.tail.len()
            invariant
                first <= i <= self.tail@.len(),
                bytes@ == self.tail@.subrange(first as int, i as int),
            decreases self.tail@.len() - i,
        {
            bytes.push(self.tail[i]);
            proof {
                assert(bytes@ =~= self.tail@.subrange(first as int, i + 1));
            }
            i = i + 1;
        }
        proof {
            assert(bytes@ =~= self.tail@.skip(first as int));
        }
        self.position = self.length;
        Some(bytes)
    }
}

} // verus!
