//! The direct messages the client holds for one other player, and the spans
//! of time it has already asked the server for, so that it asks only for
//! what it does not hold.

use vstd::prelude::*;
use crate::communication::DirectMessage;
use crate::time::Timestamp;

verus! {

/// Why a direct message could not be delivered.
#[derive(Copy, Clone, Debug, PartialEq, Eq)]
pub enum MessageFailure {
    UnknownRecipient,
    Forbidden,
    InternalError,
}

/// The instants from `start` to `end`, both included; empty when `end`
/// comes before `start`.
#[derive(Copy, Clone, Debug, PartialEq, Eq)]
pub struct TimeRange {
    pub start: Timestamp,
    pub end: Timestamp,
}

/// Something placed in time, by which lists of it are ordered.
pub trait Timed {
    /// The instant this item is ordered by.
    spec fn time(&self) -> Timestamp;

    /// The instant this item is ordered by.
    fn time_of(&self) -> (r: Timestamp)
        ensures
            r == self.time(),
    ;
}

impl<B> Timed for DirectMessage<B> {
    open spec fn time(&self) -> Timestamp {
        self.timestamp
    }

    fn time_of(&self) -> (r: Timestamp) {
        self.timestamp
    }
}

impl Timed for TimeRange {
    open spec fn time(&self) -> Timestamp {
        self.start
    }

    fn time_of(&self) -> (r: Timestamp) {
        self.start
    }
}

/// `t` is not before `u`.
pub open spec fn not_before(t: Timestamp, u: Timestamp) -> bool {
    !t.spec_before(u)
}

/// No item comes before an item earlier in the list.
pub open spec fn in_time_order<T: Timed>(s: Seq<T>) -> bool {
    forall|i: int, j: int| 0 <= i < j < s.len() ==> not_before(#[trigger] s[j].time(), #[trigger] s[i].time())
}

/// The first place at or after `i` whose item is later than `t`, or the
/// end of the list.
pub open spec fn first_later<T: Timed>(s: Seq<T>, t: Timestamp, i: int) -> int
    decreases s.len() - i,
{
    if i >= s.len() {
        s.len() as int
    } else if t.spec_before(s[i].time()) {
        i
    } else {
        first_later(s, t, i + 1)
    }
}

/// Where a stable sort puts `x` among items already in time order: after
/// every item that is not later than it.
pub open spec fn insert_timed<T: Timed>(s: Seq<T>, x: T) -> Seq<T> {
    s.insert(first_later(s, x.time(), 0), x)
}

/// The items of `s` sorted by time, items at the same time keeping the
/// order they came in.
pub open spec fn sorted_timed<T: Timed>(s: Seq<T>) -> Seq<T>
    decreases s.len(),
{
    if s.len() == 0 {
        s
    } else {
        insert_timed(sorted_timed(s.drop_last()), s.last())
    }
}

/// `first_later` lands at or after `i`, every item it passes is not later
/// than `t`, and the item it lands on is.
proof fn lemma_first_later_bounds<T: Timed>(s: Seq<T>, t: Timestamp, i: int)
    requires
        0 <= i <= s.len(),
    ensures
        i <= first_later(s, t, i) <= s.len(),
        forall|k: int| i <= k < first_later(s, t, i) ==> !t.spec_before(#[trigger] s[k].time()),
        first_later(s, t, i) < s.len() ==> t.spec_before(s[first_later(s, t, i)].time()),
    decreases s.len() - i,
{
    if i < s.len() && !t.spec_before(s[i].time()) {
        lemma_first_later_bounds(s, t, i + 1);
    }
}

/// Inserting an item where a stable sort puts it keeps a list in time order.
proof fn lemma_insert_keeps_order<T: Timed>(s: Seq<T>, x: T)
    requires
        in_time_order(s),
    ensures
        in_time_order(insert_timed(s, x)),
        insert_timed(s, x).len() == s.len() + 1,
{
    let p = first_later(s, x.time(), 0);
    lemma_first_later_bounds(s, x.time(), 0);
    let r = insert_timed(s, x);
    s.insert_ensures(p, x);
    assert forall|i: int, j: int| 0 <= i < j < r.len() implies not_before(#[trigger] r[j].time(), #[trigger] r[i].time()) by {
        if j < p {
            assert(r[i] == s[i] && r[j] == s[j]);
        } else if j == p {
            assert(r[i] == s[i]);
            assert(!x.time().spec_before(s[i].time()));
        } else if i < p {
            assert(r[i] == s[i] && r[j] == s[j - 1]);
            if i < j - 1 {
                assert(not_before(s[j - 1].time(), s[i].time()));
            }
        } else if i == p {
            assert(r[j] == s[j - 1]);
            assert(not_before(s[j - 1].time(), s[p].time()));
            assert(x.time().spec_before(s[p].time()));
        } else {
            assert(r[i] == s[i - 1] && r[j] == s[j - 1]);
        }
    }
}

/// Sorting a list already in time order leaves it as it is.
proof fn lemma_sorted_is_unchanged<T: Timed>(s: Seq<T>)
    requires
        in_time_order(s),
    ensures
        sorted_timed(s) == s,
    decreases s.len(),
{
    if s.len() > 0 {
        let prefix = s.drop_last();
        assert(in_time_order(prefix)) by {
            assert forall|i: int, j: int| 0 <= i < j < prefix.len() implies not_before(
                #[trigger] prefix[j].time(),
                #[trigger] prefix[i].time(),
            ) by {
                assert(prefix[i] == s[i] && prefix[j] == s[j]);
            }
        }
        lemma_sorted_is_unchanged(prefix);
        lemma_first_later_bounds(prefix, s.last().time(), 0);
        let p = first_later(prefix, s.last().time(), 0);
        if p < prefix.len() {
            assert(not_before(s[s.len() - 1].time(), s[p].time()));
            assert(false);
        }
        assert(insert_timed(prefix, s.last()) =~= s);
    }
}

/// Sorting by time keeps every item, as many times as it occurs, and puts
/// them in time order.
pub proof fn lemma_sorting_keeps_items<T: Timed>(s: Seq<T>)
    ensures
        sorted_timed(s).to_multiset() == s.to_multiset(),
        in_time_order(sorted_timed(s)),
    decreases s.len(),
{
    if s.len() == 0 {
        assert(in_time_order(sorted_timed(s)));
    } else {
        let prefix = s.drop_last();
        lemma_sorting_keeps_items(prefix);
        let sorted = sorted_timed(prefix);
        lemma_first_later_bounds(sorted, s.last().time(), 0);
        vstd::seq_lib::to_multiset_insert(sorted, first_later(sorted, s.last().time(), 0), s.last());
        lemma_insert_keeps_order(sorted, s.last());
        prefix.to_multiset_ensures();
        assert(prefix.push(s.last()) =~= s);
    }
}

/// Places `x` where a stable sort of `v` with `x` at its end would put it.
fn insert_in_time_order<T: Timed>(v: &mut Vec<T>, x: T)
    requires
        in_time_order(old(v)@),
    ensures
        final(v)@ == insert_timed(old(v)@, x),
        in_time_order(final(v)@),
{
    let t = x.time_of();
    let mut i: usize = 0;
    while i < v.len()
        invariant
            i <= v@.len(),
            v@ == old(v)@,
            t == x.time(),
            first_later(v@, t, 0) == first_later(v@, t, i as int),
        ensures
            i <= v@.len(),
            v@ == old(v)@,
            first_later(v@, t, 0) == i as int,
        decreases v@.len() - i,
    {
        let current = v[i].time_of();
        if t.before(&current) {
            break;
        }
        i = i + 1;
    }
    proof {
        lemma_insert_keeps_order(v@, x);
    }
    v.insert(i, x);
}

/// Extends the last span asked for to end at `timestamp`, or starts a span
/// holding only `timestamp` when none was asked for.
pub open spec fn extended(ranges: Seq<TimeRange>, timestamp: Timestamp) -> Seq<TimeRange> {
    if ranges.len() == 0 {
        seq![TimeRange { start: timestamp, end: timestamp }]
    } else {
        ranges.update(ranges.len() - 1, TimeRange { start: ranges.last().start, end: timestamp })
    }
}

/// `t` lies in `range`.
pub open spec fn within(t: Timestamp, range: TimeRange) -> bool {
    not_before(t, range.start) && not_before(range.end, t)
}

/// What is still to ask for while looking through the spans already asked
/// for: the wanted span's start and end, and the spans found missing.
pub type Scan = (Timestamp, Timestamp, Seq<TimeRange>);

/// Looks at one span already asked for: a bound inside it moves to its far
/// edge, and a span lying wholly inside the wanted span leaves the part
/// before it to ask for and moves the start past it.
pub open spec fn scan_step(range: TimeRange, scan: Scan) -> Scan {
    let from = if within(scan.0, range) { range.end } else { scan.0 };
    let to = if within(scan.1, range) { range.start } else { scan.1 };
    let wanted = TimeRange { start: from, end: to };
    if within(range.start, wanted) && within(range.end, wanted) {
        let requests = if from != range.start {
            scan.2.push(TimeRange { start: from, end: range.start })
        } else {
            scan.2
        };
        (range.end, to, requests)
    } else {
        (from, to, scan.2)
    }
}

/// Looks at each span already asked for, in order.
pub open spec fn scan_all(ranges: Seq<TimeRange>, start: Scan) -> Scan
    decreases ranges.len(),
{
    if ranges.len() == 0 {
        start
    } else {
        scan_step(ranges.last(), scan_all(ranges.drop_last(), start))
    }
}

/// The spans to ask the server for to learn the messages from `from` to `to`.
pub open spec fn spec_requests(ranges: Seq<TimeRange>, from: Timestamp, to: Timestamp) -> Seq<TimeRange> {
    let scan = scan_all(ranges, (from, to, Seq::empty()));
    if scan.0 != scan.1 {
        scan.2.push(TimeRange { start: scan.0, end: scan.1 })
    } else {
        scan.2
    }
}

/// The first place at or after `i` whose message was not sent before `from`.
pub open spec fn first_not_before<B>(messages: Seq<DirectMessage<B>>, from: Timestamp, i: int) -> int
    decreases messages.len() - i,
{
    if i >= messages.len() {
        messages.len() as int
    } else if not_before(messages[i].timestamp, from) {
        i
    } else {
        first_not_before(messages, from, i + 1)
    }
}

/// The messages held for the span from `from` to `to`: from the first sent
/// no earlier than `from` up to, not including, the next one after it sent
/// later than `to`; none when every message was sent before `from`.
pub open spec fn spec_window<B>(messages: Seq<DirectMessage<B>>, from: Timestamp, to: Timestamp) -> Option<Seq<DirectMessage<B>>> {
    let first = first_not_before(messages, from, 0);
    if first < messages.len() {
        Some(messages.subrange(first, first_later(messages, to, first + 1)))
    } else {
        None
    }
}

/// The direct messages held for one other player, in the order they were
/// sent, and the spans of time already asked for.
pub struct DirectMessages<B> {
    messages: Vec<DirectMessage<B>>,
    times_requested: Vec<TimeRange>,
}

impl<B> DirectMessages<B> {
    /// The messages held, in the order they were sent.
    pub closed spec fn messages(&self) -> Seq<DirectMessage<B>> {
        self.messages@
    }

    /// The spans of time asked for, by their starts.
    pub closed spec fn ranges(&self) -> Seq<TimeRange> {
        self.times_requested@
    }

    /// The messages are in the order they were sent and the spans in the
    /// order of their starts.
    pub open spec fn wf(&self) -> bool {
        in_time_order(self.messages()) && in_time_order(self.ranges())
    }

    /// No messages and no spans asked for.
    pub fn new() -> (r: Self)
        ensures
            r.messages() == Seq::<DirectMessage<B>>::empty(),
            r.ranges() == Seq::<TimeRange>::empty(),
            r.wf(),
    {
        DirectMessages { messages: Vec::new(), times_requested: Vec::new() }
    }

    /// Takes in a message that has just been sent or received: the last span
    /// asked for now ends at it, and it joins the messages in time order.
    pub fn add(&mut self, message: DirectMessage<B>)
        requires
            old(self).wf(),
        ensures
            final(self).wf(),
            final(self).ranges() == extended(old(self).ranges(), message.timestamp),
            final(self).messages() == sorted_timed(old(self).messages().push(message)),
    {
        let timestamp = message.timestamp;
        self.extend_last_range(timestamp);
        proof {
            lemma_sorted_is_unchanged(self.messages@);
            assert(self.messages@.push(message).drop_last() =~= self.messages@);
        }
        insert_in_time_order(&mut self.messages, message);
    }

    /// Takes in the messages the server sent for the span from `from` to
    /// `to`: they join the messages in time order, and the span joins the
    /// spans asked for in the order of their starts.
    pub fn add_range(&mut self, from: Timestamp, to: Timestamp, messages: Vec<DirectMessage<B>>)
        requires
            old(self).wf(),
        ensures
            final(self).wf(),
            final(self).messages() == sorted_timed(old(self).messages() + messages@),
            final(self).ranges() == sorted_timed(old(self).ranges().push(TimeRange { start: from, end: to })),
    {
        let ghost held = self.messages@;
        let ghost added = messages@;
        proof {
            lemma_sorted_is_unchanged(held);
            assert(held + added.take(0) =~= held);
        }
        let total: usize = messages.len();
        let mut rest = messages;
        let mut k: usize = 0;
        while rest.len() > 0
            invariant
                k <= added.len(),
                added.len() == total,
                rest@ == added.skip(k as int),
                self.times_requested@ == old(self).times_requested@,
                in_time_order(self.messages@),
                in_time_order(self.times_requested@),
                self.messages@ == sorted_timed(held + added.take(k as int)),
            decreases rest@.len(),
        {
            let message = rest.remove(0);
            proof {
                assert(message == added[k as int]);
                assert((held + added.take(k as int + 1)).drop_last() =~= held + added.take(k as int));
                assert((held + added.take(k as int + 1)).last() == added[k as int]);
            }
            insert_in_time_order(&mut self.messages, message);
            k = k + 1;
            proof {
                assert(rest@ =~= added.skip(k as int));
            }
        }
        proof {
            assert(added.take(k as int) =~= added);
            lemma_sorted_is_unchanged(self.times_requested@);
            assert(self.times_requested@.push(TimeRange { start: from, end: to }).drop_last() =~= self.times_requested@);
        }
        insert_in_time_order(&mut self.times_requested, TimeRange { start: from, end: to });
    }

    /// The spans to ask the server for to learn the messages from `from` to
    /// `to`, and, when there are none, the messages held for that span.
    pub fn get(&self, from: Timestamp, to: Timestamp) -> (r: (Vec<TimeRange>, Option<&[DirectMessage<B>]>))
        ensures
            r.0@ == spec_requests(self.ranges(), from, to),
            match r.1 {
                Some(window) => r.0@.len() == 0 && spec_window(
                    self.messages(),
                    scan_all(self.ranges(), (from, to, Seq::empty())).0,
                    scan_all(self.ranges(), (from, to, Seq::empty())).1,
                ) == Some(window@),
                None => r.0@.len() > 0 || spec_window(
                    self.messages(),
                    scan_all(self.ranges(), (from, to, Seq::empty())).0,
                    scan_all(self.ranges(), (from, to, Seq::empty())).1,
                ) is None,
            },
    {
        let ghost ranges = self.times_requested@;
        let ghost start: Scan = (from, to, Seq::empty());
        let mut from = from;
        let mut to = to;
        let mut requests: Vec<TimeRange> = Vec::new();
        let mut i: usize = 0;
        proof {
            assert(ranges.take(0) =~= Seq::<TimeRange>::empty());
        }
        while i < self.times_requested.len()
            invariant
                i <= ranges.len(),
                ranges == self.times_requested@,
                scan_all(ranges.take(i as int), start) == (from, to, requests@),
            decreases ranges.len() - i,
        {
            let range = self.times_requested[i];
            proof {
                assert(ranges.take(i as int + 1).drop_last() =~= ranges.take(i as int));
                assert(ranges.take(i as int + 1).last() == range);
            }
            if !from.before(&range.start) && !range.end.before(&from) {
                from = range.end;
            }
            if !to.before(&range.start) && !range.end.before(&to) {
                to = range.start;
            }
            if !range.start.before(&from) && !to.before(&range.start) && !range.end.before(&from) && !to.before(&range.end) {
                if !same_instant(&from, &range.start) {
                    requests.push(TimeRange { start: from, end: range.start });
                }
                from = range.end;
            }
            i = i + 1;
        }
        proof {
            assert(ranges.take(ranges.len() as int) =~= ranges);
        }
        if !same_instant(&from, &to) {
            requests.push(TimeRange { start: from, end: to });
        }
        if requests.len() == 0 {
            let first = first_message_from(&self.messages, from);
            if first < self.messages.len() {
                let last = first_message_after(&self.messages, to, first + 1);
                (requests, Some(vstd::slice::slice_subrange(self.messages.as_slice(), first, last)))
            } else {
                (requests, None)
            }
        } else {
            (requests, None)
        }
    }

    /// The last span asked for now ends at `timestamp`; when none was asked
    /// for, a span holding only `timestamp` is.
    fn extend_last_range(&mut self, timestamp: Timestamp)
        requires
            in_time_order(old(self).times_requested@),
        ensures
            final(self).times_requested@ == extended(old(self).times_requested@, timestamp),
            final(self).messages@ == old(self).messages@,
            in_time_order(final(self).times_requested@),
    {
        let count = self.times_requested.len();
        if count == 0 {
            self.times_requested.push(TimeRange { start: timestamp, end: timestamp });
        } else {
            let start = self.times_requested[count - 1].start;
            self.times_requested.set(count - 1, TimeRange { start, end: timestamp });
            proof {
                let r = self.times_requested@;
                let o = old(self).times_requested@;
                assert forall|i: int, j: int| 0 <= i < j < r.len() implies not_before(#[trigger] r[j].time(), #[trigger] r[i].time()) by {
                    assert(r[i].start == o[i].start && r[j].start == o[j].start);
                    assert(not_before(o[j].time(), o[i].time()));
                }
            }
        }
    }
}

impl<B> Default for DirectMessages<B> {
    /// No messages and no spans asked for.
    fn default() -> (r: Self)
        ensures
            r.messages() == Seq::<DirectMessage<B>>::empty(),
            r.ranges() == Seq::<TimeRange>::empty(),
            r.wf(),
    {
        DirectMessages::new()
    }
}

/// Whether two instants are the same.
fn same_instant(a: &Timestamp, b: &Timestamp) -> (r: bool)
    ensures
        r == (*a == *b),
{
    a.seconds == b.seconds && a.nanos == b.nanos
}

/// The first place whose message was not sent before `from`, or the end.
fn first_message_from<B>(messages: &Vec<DirectMessage<B>>, from: Timestamp) -> (r: usize)
    ensures
        r == first_not_before(messages@, from, 0),
{
    let mut i: usize = 0;
    while i < messages.len()
        invariant
            i <= messages@.len(),
            first_not_before(messages@, from, 0) == first_not_before(messages@, from, i as int),
        decreases messages@.len() - i,
    {
        if !messages[i].timestamp.before(&from) {
            return i;
        }
        i = i + 1;
    }
    i
}

/// The first place at or after `start` whose message was sent later than
/// `to`, or the end.
fn first_message_after<B>(messages: &Vec<DirectMessage<B>>, to: Timestamp, start: usize) -> (r: usize)
    requires
        start <= messages@.len(),
    ensures
        r == first_later(messages@, to, start as int),
        start <= r <= messages@.len(),
{
    let mut i: usize = start;
    while i < messages.len()
        invariant
            start <= i <= messages@.len(),
            first_later(messages@, to, start as int) == first_later(messages@, to, i as int),
        decreases messages@.len() - i,
    {
        if to.before(&messages[i].timestamp) {
            return i;
        }
        i = i + 1;
    }
    i
}

} // verus!
