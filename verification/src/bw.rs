//! Sliding-window bandwidth accounting for outbound UDP packets.
//!
//! Every packet that goes out is recorded with its size and the time it was
//! sent. Packets older than the window are forgotten, and the tracker tells
//! whether a new packet fits under the bandwidth limit, or how long to wait
//! until it does.
//!
//! Time is measured in nanoseconds elapsed since the tracker was created, on
//! the monotonic clock (`std::time::Instant`).

use std::collections::VecDeque;
use std::time::{Duration, Instant};
use crate::clock::{readings_in_order, MonotonicClock};
use vstd::prelude::*;

verus! {

#[verifier::external_type_specification]
#[verifier::external_body]
pub struct ExInstant(Instant);

/// A recorded packet: its size in bytes and the time it was sent.
pub type PacketRecord = (usize, u128);

/// The largest number of nanoseconds that a `Duration` can hold:
/// `u64::MAX` seconds and 999_999_999 nanoseconds.
pub open spec fn max_duration_nanos() -> int {
    u64::MAX * 1_000_000_000 + 999_999_999
}

/// Time elapsed from `sent` to `now`, zero when `now` is earlier
/// (monotonic instants subtract saturating).
pub open spec fn elapsed(now: u128, sent: u128) -> int {
    if now >= sent {
        now - sent
    } else {
        0
    }
}

/// A packet sent at `sent` has left a window of `window` nanoseconds at `now`.
pub open spec fn is_expired(sent: u128, now: u128, window: u128) -> bool {
    elapsed(now, sent) > window
}

/// Total size of the recorded packets.
pub open spec fn total_size(packets: Seq<PacketRecord>) -> int
    decreases packets.len(),
{
    if packets.len() == 0 {
        0
    } else {
        total_size(packets.drop_last()) + packets.last().0
    }
}

/// The records are in the order in which they were sent.
pub open spec fn sent_in_order(packets: Seq<PacketRecord>) -> bool {
    forall|i: int, j: int| 0 <= i <= j < packets.len() ==> packets[i].1 <= packets[j].1
}

/// What remains of `packets` at `now` once the expired packets at the front
/// have been dropped, oldest first, stopping at the first one still in the window.
pub open spec fn after_cleanup(packets: Seq<PacketRecord>, now: u128, window: u128) -> Seq<
    PacketRecord,
>
    decreases packets.len(),
{
    if packets.len() > 0 && is_expired(packets[0].1, now, window) {
        after_cleanup(packets.drop_first(), now, window)
    } else {
        packets
    }
}

/// The packets sent after the `k`-th one, together with a new packet of
/// `size` bytes, fit under `limit`.
pub open spec fn room_after(packets: Seq<PacketRecord>, k: int, size: usize, limit: usize) -> bool {
    total_size(packets.subrange(k + 1, packets.len() as int)) + size <= limit
}

/// The first index from `k` on after whose packet there is room for `size`
/// more bytes, or `packets.len()` when there is none.
pub open spec fn first_room(packets: Seq<PacketRecord>, size: usize, limit: usize, k: int) -> int
    decreases packets.len() - k,
{
    if k < 0 || k >= packets.len() {
        packets.len() as int
    } else if room_after(packets, k, size, limit) {
        k
    } else {
        first_room(packets, size, limit, k + 1)
    }
}

proof fn lemma_total_size_push(s: Seq<PacketRecord>, x: PacketRecord)
    ensures
        total_size(s.push(x)) == total_size(s) + x.0,
{
    assert(s.push(x).drop_last() =~= s);
}

proof fn lemma_total_size_drop_first(s: Seq<PacketRecord>)
    requires
        s.len() > 0,
    ensures
        total_size(s) == s[0].0 + total_size(s.drop_first()),
    decreases s.len(),
{
    if s.len() > 1 {
        lemma_total_size_drop_first(s.drop_last());
        assert(s.drop_last().drop_first() =~= s.drop_first().drop_last());
    } else {
        assert(s.drop_first() =~= Seq::<PacketRecord>::empty());
        assert(s.drop_last() =~= Seq::<PacketRecord>::empty());
    }
}

proof fn lemma_total_size_nonneg(s: Seq<PacketRecord>)
    ensures
        total_size(s) >= 0,
    decreases s.len(),
{
    if s.len() > 0 {
        lemma_total_size_nonneg(s.drop_last());
    }
}

/// A suffix weighs no more than the whole sequence.
proof fn lemma_total_size_suffix(s: Seq<PacketRecord>, k: int)
    requires
        0 <= k <= s.len(),
    ensures
        total_size(s.subrange(k, s.len() as int)) <= total_size(s),
    decreases k,
{
    if k == 0 {
        assert(s.subrange(0, s.len() as int) =~= s);
    } else {
        lemma_total_size_suffix(s, k - 1);
        let t = s.subrange(k - 1, s.len() as int);
        lemma_total_size_drop_first(t);
        assert(t.drop_first() =~= s.subrange(k, s.len() as int));
    }
}

/// Cleaning up drops a prefix of expired packets and keeps the rest as it was.
proof fn lemma_after_cleanup_shape(s: Seq<PacketRecord>, now: u128, window: u128) -> (k: int)
    ensures
        0 <= k <= s.len(),
        after_cleanup(s, now, window) == s.subrange(k, s.len() as int),
        forall|i: int| 0 <= i < k ==> is_expired(#[trigger] s[i].1, now, window),
        k < s.len() ==> !is_expired(s[k].1, now, window),
    decreases s.len(),
{
    if s.len() > 0 && is_expired(s[0].1, now, window) {
        let k1 = lemma_after_cleanup_shape(s.drop_first(), now, window);
        assert(s.drop_first().subrange(k1, s.drop_first().len() as int) =~= s.subrange(
            k1 + 1,
            s.len() as int,
        ));
        assert forall|i: int| 0 <= i < k1 + 1 implies is_expired(#[trigger] s[i].1, now, window) by {
            if i > 0 {
                assert(s[i] == s.drop_first()[i - 1]);
            }
        }
        k1 + 1
    } else {
        assert(s.subrange(0, s.len() as int) =~= s);
        0
    }
}

proof fn lemma_first_room(p: Seq<PacketRecord>, size: usize, limit: usize, j: int)
    requires
        0 <= j <= p.len(),
    ensures
        j <= first_room(p, size, limit, j) <= p.len(),
        first_room(p, size, limit, j) < p.len() ==> room_after(
            p,
            first_room(p, size, limit, j),
            size,
            limit,
        ),
        forall|i: int| j <= i < first_room(p, size, limit, j) ==> !#[trigger] room_after(p, i, size, limit),
    decreases p.len() - j,
{
    if j < p.len() && !room_after(p, j, size, limit) {
        lemma_first_room(p, size, limit, j + 1);
    }
}

/// A later suffix weighs no more than an earlier one.
proof fn lemma_total_size_later_suffix(s: Seq<PacketRecord>, m: int, k: int)
    requires
        0 <= m <= k <= s.len(),
    ensures
        total_size(s.subrange(k, s.len() as int)) <= total_size(s.subrange(m, s.len() as int)),
{
    let t = s.subrange(m, s.len() as int);
    lemma_total_size_suffix(t, k - m);
    assert(t.subrange(k - m, t.len() as int) =~= s.subrange(k, s.len() as int));
}

/// Packets sent no earlier than a packet that is still in the window are in
/// the window too.
proof fn lemma_newer_not_expired(sent_old: u128, sent_new: u128, now: u128, window: u128)
    requires
        sent_old <= sent_new,
        !is_expired(sent_old, now, window),
    ensures
        !is_expired(sent_new, now, window),
{
}

/// Cleaning up forgets exactly the packets that have left the window: the
/// records split at some `k` into a prefix of expired packets, which are
/// dropped, and the rest, which are all still in the window and kept in order.
/// The running total still matches the kept packets.
pub proof fn lemma_cleanup_forgets_exactly_the_expired(v: TrackerView, now: u128) -> (k: int)
    requires
        v.wf(),
    ensures
        0 <= k <= v.packets.len(),
        v.cleaned(now).packets == v.packets.subrange(k, v.packets.len() as int),
        forall|i: int| 0 <= i < k ==> is_expired(#[trigger] v.packets[i].1, now, v.window_nanos),
        forall|i: int|
            k <= i < v.packets.len() ==> !is_expired(#[trigger] v.packets[i].1, now, v.window_nanos),
        v.cleaned(now).wf(),
{
    let k = lemma_after_cleanup_shape(v.packets, now, v.window_nanos);
    lemma_cleaned_total(v, now);
    assert forall|i: int| k <= i < v.packets.len() implies !is_expired(
        #[trigger] v.packets[i].1,
        now,
        v.window_nanos,
    ) by {
        lemma_newer_not_expired(v.packets[k].1, v.packets[i].1, now, v.window_nanos);
    }
    k
}

/// Cleaning up twice at the same time changes nothing the second time.
pub proof fn lemma_cleanup_idempotent(v: TrackerView, now: u128)
    requires
        v.wf(),
    ensures
        v.cleaned(now).cleaned(now) == v.cleaned(now),
{
    let c = v.cleaned(now);
    lemma_cleanup_forgets_exactly_the_expired(v, now);
    let k2 = lemma_after_cleanup_shape(c.packets, now, c.window_nanos);
    if k2 > 0 {
        assert(is_expired(c.packets[0].1, now, c.window_nanos));
        assert(false);
    }
    assert(c.packets.subrange(0, c.packets.len() as int) =~= c.packets);
}

/// After cleaning up at `now`, the packets from the `k+1`-th on are all that
/// may remain at any later time at which the first `k+1` have expired.
proof fn lemma_cleanup_drops_expired_prefix(p: Seq<PacketRecord>, t: u128, window: u128, k: int)
    requires
        0 <= k < p.len(),
        forall|i: int| 0 <= i <= k ==> is_expired(#[trigger] p[i].1, t, window),
    ensures
        total_size(after_cleanup(p, t, window)) <= total_size(p.subrange(k + 1, p.len() as int)),
{
    let m = lemma_after_cleanup_shape(p, t, window);
    if m <= k {
        assert(is_expired(p[m].1, t, window));
    }
    lemma_total_size_later_suffix(p, k + 1, m);
}

/// Waiting is enough: when a packet that fits the limit on its own is told to
/// wait `w` nanoseconds, then at any time more than `w` nanoseconds later, with
/// no packet sent in between, it may go out.
pub proof fn lemma_wait_is_enough(v: TrackerView, size: usize, now: u128, w: u128, later: u128)
    requires
        v.wf(),
        v.newest_sent() <= now,
        size <= v.bandwidth_limit,
        v.send_decision(size, now) == Err::<(), u128>(w),
        later > now + w,
    ensures
        v.cleaned(now).send_decision(size, later) is Ok,
{
    let c = v.cleaned(now);
    let p = c.packets;
    let window = v.window_nanos;
    let limit = v.bandwidth_limit;
    let k0 = lemma_cleanup_forgets_exactly_the_expired(v, now);
    lemma_first_room(p, size, limit, 0);
    let k = first_room(p, size, limit, 0);
    if k >= p.len() {
        if p.len() > 0 {
            let e = p.subrange(p.len() as int, p.len() as int);
            assert(e =~= Seq::<PacketRecord>::empty());
            assert(room_after(p, p.len() - 1, size, limit));
        } else {
            assert(p =~= Seq::<PacketRecord>::empty());
        }
        assert(false);
    }
    assert(p[k] == v.packets[k0 + k]);
    assert(v.packets[k0 + k].1 <= v.newest_sent());
    assert forall|i: int| 0 <= i <= k implies is_expired(#[trigger] p[i].1, later, window) by {
        assert(p[i] == v.packets[k0 + i]);
    }
    lemma_cleanup_drops_expired_prefix(p, later, window, k);
}

/// Waiting is needed: at no time from `now` up to `w` nanoseconds later, with
/// no packet sent in between, may a packet that was told to wait `w` go out.
pub proof fn lemma_wait_is_needed(v: TrackerView, size: usize, now: u128, w: u128, t: u128)
    requires
        v.wf(),
        v.newest_sent() <= now,
        v.send_decision(size, now) == Err::<(), u128>(w),
        now <= t <= now + w,
    ensures
        v.cleaned(now).send_decision(size, t) is Err,
{
    let c = v.cleaned(now);
    let p = c.packets;
    let window = v.window_nanos;
    let limit = v.bandwidth_limit;
    let k0 = lemma_cleanup_forgets_exactly_the_expired(v, now);
    lemma_first_room(p, size, limit, 0);
    let k = first_room(p, size, limit, 0);
    let m = lemma_after_cleanup_shape(p, t, window);
    lemma_total_size_nonneg(after_cleanup(p, t, window));
    assert(p.subrange(0, p.len() as int) =~= p);
    if k < p.len() {
        assert(p[k] == v.packets[k0 + k]);
        assert(v.packets[k0 + k].1 <= v.newest_sent());
        assert(!is_expired(p[k].1, t, window));
        if m > k {
            assert(is_expired(p[k].1, t, window));
        }
        lemma_total_size_later_suffix(p, m, k);
        if k > 0 {
            assert(!room_after(p, k - 1, size, limit));
        }
    } else {
        if p.len() > 0 {
            assert(!room_after(p, p.len() - 1, size, limit));
            assert(p.subrange(p.len() as int, p.len() as int) =~= Seq::<PacketRecord>::empty());
        }
    }
}

/// A refused packet waits at most one window.
pub proof fn lemma_wait_within_window(v: TrackerView, size: usize, now: u128)
    requires
        v.wf(),
    ensures
        v.send_decision(size, now) matches Err(w) ==> w <= v.window_nanos,
{
    let p = after_cleanup(v.packets, now, v.window_nanos);
    let k0 = lemma_cleanup_forgets_exactly_the_expired(v, now);
    lemma_first_room(p, size, v.bandwidth_limit, 0);
    let k = first_room(p, size, v.bandwidth_limit, 0);
    if k < p.len() {
        assert(p[k] == v.packets[k0 + k]);
    }
}

/// A packet larger than the limit never goes out, and is told to wait a
/// whole window.
pub proof fn lemma_oversize_waits_window(v: TrackerView, size: usize, now: u128)
    requires
        v.wf(),
        size > v.bandwidth_limit,
    ensures
        v.send_decision(size, now) == Err::<(), u128>(v.window_nanos),
{
    let p = after_cleanup(v.packets, now, v.window_nanos);
    lemma_cleanup_forgets_exactly_the_expired(v, now);
    lemma_total_size_nonneg(p);
    lemma_first_room(p, size, v.bandwidth_limit, 0);
    let k = first_room(p, size, v.bandwidth_limit, 0);
    if k < p.len() {
        lemma_total_size_nonneg(p.subrange(k + 1, p.len() as int));
    }
}

/// At one state and one time, a larger packet never fares better than a
/// smaller one: if the larger may go out, so may the smaller; and if the
/// smaller must wait, the larger must wait at least as long.
pub proof fn lemma_larger_packets_wait_longer(v: TrackerView, small: usize, large: usize, now: u128)
    requires
        v.wf(),
        small <= large,
    ensures
        v.send_decision(large, now) is Ok ==> v.send_decision(small, now) is Ok,
        v.send_decision(small, now) matches Err(ws) ==> (v.send_decision(large, now) matches Err(
            wl,
        ) && ws <= wl),
{
    let p = after_cleanup(v.packets, now, v.window_nanos);
    let window = v.window_nanos;
    let limit = v.bandwidth_limit;
    let k0 = lemma_cleanup_forgets_exactly_the_expired(v, now);
    lemma_first_room(p, small, limit, 0);
    lemma_first_room(p, large, limit, 0);
    let ks = first_room(p, small, limit, 0);
    let kl = first_room(p, large, limit, 0);
    if kl < ks {
        assert(room_after(p, kl, large, limit));
        assert(!room_after(p, kl, small, limit));
    }
    assert(ks <= kl);
    if ks < p.len() {
        assert(p[ks] == v.packets[k0 + ks]);
        assert(!is_expired(p[ks].1, now, window));
    }
    if kl < p.len() {
        assert(p[kl] == v.packets[k0 + kl]);
        assert(p[ks] == v.packets[k0 + ks]);
        assert(v.packets[k0 + ks].1 <= v.packets[k0 + kl].1);
        assert(!is_expired(p[kl].1, now, window));
    }
}

/// Cleaning up at one time and then at a later one forgets exactly what
/// cleaning up at the later time alone forgets: a packet expired at a time is
/// expired at every later time.
pub proof fn lemma_cleanup_later_subsumes(packets: Seq<PacketRecord>, window: u128, t1: u128, t2: u128)
    requires
        t1 <= t2,
    ensures
        after_cleanup(after_cleanup(packets, t1, window), t2, window) == after_cleanup(
            packets,
            t2,
            window,
        ),
    decreases packets.len(),
{
    if packets.len() > 0 && is_expired(packets[0].1, t1, window) {
        lemma_cleanup_later_subsumes(packets.drop_first(), window, t1, t2);
    }
}

/// A packet that may go out at some time may also go out at any later time,
/// with no packet sent in between.
pub proof fn lemma_later_never_worse(v: TrackerView, size: usize, t1: u128, t2: u128)
    requires
        v.wf(),
        t1 <= t2,
        v.send_decision(size, t1) is Ok,
    ensures
        v.cleaned(t1).send_decision(size, t2) is Ok,
        v.send_decision(size, t2) is Ok,
{
    let p1 = after_cleanup(v.packets, t1, v.window_nanos);
    lemma_cleanup_later_subsumes(v.packets, v.window_nanos, t1, t2);
    let k = lemma_after_cleanup_shape(p1, t2, v.window_nanos);
    lemma_total_size_suffix(p1, k);
    lemma_cleaned_total(v, t1);
}

/// Once every packet on record has left the window, cleaning up forgets them
/// all, and a packet may go out exactly when it fits the limit on its own.
pub proof fn lemma_stale_packets_forgotten(v: TrackerView, size: usize, now: u128)
    requires
        v.wf(),
        v.newest_sent() + v.window_nanos < now,
    ensures
        v.cleaned(now).packets.len() == 0,
        v.cleaned(now).current_bandwidth == 0,
        v.send_decision(size, now) is Ok <==> size <= v.bandwidth_limit,
{
    let k = lemma_after_cleanup_shape(v.packets, now, v.window_nanos);
    if k < v.packets.len() {
        assert(v.packets[k].1 <= v.packets[v.packets.len() - 1].1);
        assert(is_expired(v.packets[k].1, now, v.window_nanos));
    }
    assert(v.packets.subrange(k, v.packets.len() as int) =~= Seq::<PacketRecord>::empty());
    if size > v.bandwidth_limit {
        lemma_oversize_waits_window(v, size, now);
    }
}

/// A packet just recorded stays on record through a cleanup no later than a
/// window after its send time: it is the newest packet kept.
pub proof fn lemma_packet_just_added_stays(v: TrackerView, size: usize, sent: u128, now: u128)
    requires
        v.wf(),
        v.newest_sent() <= sent,
        v.current_bandwidth + size <= usize::MAX,
        !is_expired(sent, now, v.window_nanos),
    ensures
        v.recorded(size, sent).cleaned(now).packets.len() > 0,
        v.recorded(size, sent).cleaned(now).packets.last() == (size, sent),
{
    let q = v.packets.push((size, sent));
    let k = lemma_after_cleanup_shape(q, now, v.window_nanos);
    if k == q.len() {
        assert(is_expired(q[q.len() - 1].1, now, v.window_nanos));
    }
    assert(q.subrange(k, q.len() as int).last() == q.last());
}

/// The abstract state of a tracker.
pub struct TrackerView {
    pub packets: Seq<PacketRecord>,
    pub window_nanos: u128,
    pub bandwidth_limit: usize,
    pub current_bandwidth: usize,
}

/// Tracks the UDP packets sent within a sliding time window.
pub struct UdpPacketTracker {
    packets: VecDeque<PacketRecord>,
    window_nanos: u128,
    bandwidth_limit: usize,
    current_bandwidth: usize,
    clock: MonotonicClock,
}

impl View for UdpPacketTracker {
    type V = TrackerView;

    closed spec fn view(&self) -> TrackerView {
        TrackerView {
            packets: self.packets@,
            window_nanos: self.window_nanos,
            bandwidth_limit: self.bandwidth_limit,
            current_bandwidth: self.current_bandwidth,
        }
    }
}

impl TrackerView {
    /// The running total equals the sizes of the recorded packets, which are
    /// kept in the order they were sent, and the window fits in a `Duration`.
    pub open spec fn wf(self) -> bool {
        &&& self.current_bandwidth == total_size(self.packets)
        &&& sent_in_order(self.packets)
        &&& self.window_nanos <= max_duration_nanos()
    }
}

impl TrackerView {
    /// The newest send time on record, zero when nothing is recorded.
    pub open spec fn newest_sent(self) -> u128 {
        if self.packets.len() == 0 {
            0
        } else {
            self.packets.last().1
        }
    }

    /// The state after a packet of `size` bytes sent at `sent` was recorded.
    pub open spec fn recorded(self, size: usize, sent: u128) -> TrackerView {
        TrackerView {
            packets: self.packets.push((size, sent)),
            current_bandwidth: (self.current_bandwidth + size) as usize,
            ..self
        }
    }

    /// The state after the expired packets have been forgotten at `now`.
    pub open spec fn cleaned(self, now: u128) -> TrackerView {
        let packets = after_cleanup(self.packets, now, self.window_nanos);
        TrackerView { packets, current_bandwidth: total_size(packets) as usize, ..self }
    }

    /// The answer to "may a packet of `size` bytes go out at `now`?": `Ok` when
    /// it fits under the limit together with the packets still in the window;
    /// otherwise `Err` with the nanoseconds until the oldest packet whose expiry
    /// makes room leaves the window, or the whole window when no expiry would.
    pub open spec fn send_decision(self, size: usize, now: u128) -> Result<(), u128> {
        let packets = after_cleanup(self.packets, now, self.window_nanos);
        if total_size(packets) + size <= self.bandwidth_limit {
            Ok(())
        } else {
            let k = first_room(packets, size, self.bandwidth_limit, 0);
            if k < packets.len() {
                Err((self.window_nanos - elapsed(now, packets[k].1)) as u128)
            } else {
                Err(self.window_nanos)
            }
        }
    }
}

/// `total` and `size` together fit under `limit`, computed without overflow.
fn fits_under(total: usize, size: usize, limit: usize) -> (b: bool)
    ensures
        b == (total + size <= limit),
{
    size <= limit && total <= limit - size
}

/// The time given to a clock `reading` for a tracker whose newest packet was
/// sent at `newest`: the reading, or `newest` when the reading is earlier.
pub open spec fn stamp(reading: u128, newest: u128) -> u128 {
    if reading < newest {
        newest
    } else {
        reading
    }
}

/// Nanoseconds from `sent` to `now`, zero when `now` is earlier.
fn elapsed_nanos(now: u128, sent: u128) -> (e: u128)
    ensures
        e == elapsed(now, sent),
{
    if now >= sent {
        now - sent
    } else {
        0
    }
}


/// Reads the monotonic clock: `std::time::Instant::now`. Nothing is claimed
/// of the instant it returns.
#[verifier::external_body]
fn instant_now() -> Instant {
    Instant::now()
}

/// The time elapsed since `origin` on the monotonic clock:
/// `std::time::Instant::elapsed`. Nothing is claimed of the reading.
#[verifier::external_body]
pub(crate) fn instant_elapsed(origin: &Instant) -> Duration {
    origin.elapsed()
}

/// The total number of nanoseconds that a duration holds, as
/// `std::time::Duration::as_nanos` counts them.
pub uninterp spec fn duration_nanos(d: Duration) -> int;

/// The whole duration in nanoseconds: `std::time::Duration::as_nanos`.
/// Claimed: the count is `duration_nanos` of the duration, and at most what a
/// `Duration` can hold.
#[verifier::external_body]
pub(crate) fn duration_as_nanos(d: &Duration) -> (n: u128)
    ensures
        n == duration_nanos(*d),
        n <= max_duration_nanos(),
{
    d.as_nanos()
}

/// A duration of `secs` seconds and `nanos` nanoseconds:
/// `std::time::Duration::new`, which cannot overflow when `nanos` is below
/// one second. Claimed, as its documentation says: the duration holds
/// `secs` seconds and `nanos` nanoseconds in all.
#[verifier::external_body]
fn duration_new(secs: u64, nanos: u32) -> (d: Duration)
    requires
        nanos < 1_000_000_000,
    ensures
        duration_nanos(d) == secs * 1_000_000_000 + nanos,
{
    Duration::new(secs, nanos)
}

/// The `Duration` of `nanos` nanoseconds.
fn duration_from_nanos(nanos: u128) -> (d: Duration)
    requires
        nanos <= max_duration_nanos(),
    ensures
        duration_nanos(d) == nanos,
{
    let secs = nanos / 1_000_000_000;
    let subsec = nanos % 1_000_000_000;
    assert(secs <= u64::MAX) by (nonlinear_arith)
        requires
            nanos <= max_duration_nanos(),
            secs == nanos / 1_000_000_000,
    ;
    assert(secs * 1_000_000_000 + subsec == nanos) by {
        vstd::arithmetic::div_mod::lemma_fundamental_div_mod(nanos as int, 1_000_000_000);
    }
    duration_new(secs as u64, subsec as u32)
}

/// Total size of a suffix of the records is at most the total.
proof fn lemma_cleaned_total(v: TrackerView, now: u128)
    requires
        v.wf(),
    ensures
        0 <= total_size(after_cleanup(v.packets, now, v.window_nanos)) <= v.current_bandwidth,
        v.cleaned(now).current_bandwidth == total_size(after_cleanup(v.packets, now, v.window_nanos)),
{
    let k = lemma_after_cleanup_shape(v.packets, now, v.window_nanos);
    lemma_total_size_suffix(v.packets, k);
    lemma_total_size_nonneg(v.packets.subrange(k, v.packets.len() as int));
}

impl UdpPacketTracker {
    /// A tracker with no packets, forgetting packets after `window_nanos`
    /// nanoseconds, with times measured from `origin`.
    pub fn from_parts(window_nanos: u128, bandwidth_limit: usize, origin: Instant) -> (tracker:
        Self)
        requires
            window_nanos <= max_duration_nanos(),
        ensures
            tracker@.wf(),
            tracker@.packets == Seq::<PacketRecord>::empty(),
            tracker@.window_nanos == window_nanos,
            tracker@.bandwidth_limit == bandwidth_limit,
            tracker@.current_bandwidth == 0,
            tracker.clock_readings() == Seq::<u128>::empty(),
    {
        UdpPacketTracker {
            packets: VecDeque::new(),
            window_nanos,
            bandwidth_limit,
            current_bandwidth: 0,
            clock: MonotonicClock::new(origin),
        }
    }

    /// Every reading of the clock taken so far, oldest first: nanoseconds
    /// since the tracker's origin.
    pub closed spec fn clock_readings(&self) -> Seq<u128> {
        self.clock.readings()
    }

    /// Records a packet of `packet_size` bytes sent at `now`, which is no
    /// earlier than any packet on record.
    pub fn record_packet_at(&mut self, packet_size: usize, now: u128)
        requires
            old(self)@.wf(),
            old(self)@.current_bandwidth + packet_size <= usize::MAX,
            old(self)@.newest_sent() <= now,
        ensures
            final(self)@.wf(),
            final(self)@ == old(self)@.recorded(packet_size, now),
            final(self).clock_readings() == old(self).clock_readings(),
    {
        proof {
            lemma_total_size_push(self@.packets, (packet_size, now));
        }
        self.packets.push_back((packet_size, now));
        self.current_bandwidth = self.current_bandwidth + packet_size;
    }

    /// Forgets the packets that have left the window at `now`, oldest first.
    pub fn cleanup_at(&mut self, now: u128)
        requires
            old(self)@.wf(),
        ensures
            final(self)@.wf(),
            final(self)@ == old(self)@.cleaned(now),
            final(self).clock_readings() == old(self).clock_readings(),
            forall|i: int|
                0 <= i < final(self)@.packets.len() ==> !is_expired(
                    #[trigger] final(self)@.packets[i].1,
                    now,
                    final(self)@.window_nanos,
                ),
    {
        let ghost start = self@;
        loop
            invariant
                self.clock_readings() == old(self).clock_readings(),
                self@.wf(),
                self@.window_nanos == start.window_nanos,
                self@.bandwidth_limit == start.bandwidth_limit,
                after_cleanup(self@.packets, now, self@.window_nanos) == after_cleanup(
                    start.packets,
                    now,
                    start.window_nanos,
                ),
            ensures
                self.clock_readings() == old(self).clock_readings(),
                self@.wf(),
                self@.window_nanos == start.window_nanos,
                self@.bandwidth_limit == start.bandwidth_limit,
                self@.packets == after_cleanup(start.packets, now, start.window_nanos),
            decreases self@.packets.len(),
        {
            if self.packets.len() == 0 {
                break;
            }
            let sent = self.packets[0].1;
            if elapsed_nanos(now, sent) <= self.window_nanos {
                break;
            }
            proof {
                lemma_total_size_drop_first(self@.packets);
                lemma_total_size_nonneg(self@.packets.drop_first());
                assert(self@.packets.subrange(1, self@.packets.len() as int)
                    =~= self@.packets.drop_first());
            }
            let expired = self.packets.pop_front();
            if let Some((size, _)) = expired {
                self.current_bandwidth = self.current_bandwidth - size;
            }
        }
        proof {
            let k = lemma_after_cleanup_shape(start.packets, now, start.window_nanos);
            let p = self@.packets;
            assert forall|i: int| 0 <= i < p.len() implies !is_expired(
                #[trigger] p[i].1,
                now,
                self@.window_nanos,
            ) by {
                assert(p[0] == start.packets[k]);
                assert(p[i] == start.packets[k + i]);
            }
        }
    }

    /// Records a packet of `packet_size` bytes sent at `now`, then forgets the
    /// packets that have left the window.
    pub fn add_packet_at(&mut self, packet_size: usize, now: u128)
        requires
            old(self)@.wf(),
            old(self)@.current_bandwidth + packet_size <= usize::MAX,
            old(self)@.newest_sent() <= now,
        ensures
            final(self)@.wf(),
            final(self)@ == old(self)@.recorded(packet_size, now).cleaned(now),
            final(self).clock_readings() == old(self).clock_readings(),
    {
        self.record_packet_at(packet_size, now);
        self.cleanup_at(now);
    }

    /// Forgets the packets that have left the window at `now`, then answers
    /// whether a packet of `packet_size` bytes may go out: `Ok(())` when it fits,
    /// otherwise `Err` with the nanoseconds to wait (see `send_decision`).
    pub fn can_send_packet_at(&mut self, packet_size: usize, now: u128) -> (r: Result<(), u128>)
        requires
            old(self)@.wf(),
        ensures
            final(self)@.wf(),
            final(self)@ == old(self)@.cleaned(now),
            r == old(self)@.send_decision(packet_size, now),
            final(self).clock_readings() == old(self).clock_readings(),
            r matches Err(w) ==> w <= old(self)@.window_nanos,
    {
        let ghost start = self@;
        self.cleanup_at(now);
        if fits_under(self.current_bandwidth, packet_size, self.bandwidth_limit) {
            return Ok(());
        }
        let ghost p = self@.packets;
        let ghost limit = self@.bandwidth_limit;
        let mut temp_bandwidth = self.current_bandwidth;
        let mut wait_time: Option<u128> = None;
        let mut i: usize = 0;
        proof {
            assert(p.subrange(0, p.len() as int) =~= p);
        }
        while i < self.packets.len()
            invariant_except_break
                wait_time.is_none(),
                temp_bandwidth == total_size(p.subrange(i as int, p.len() as int)),
                first_room(p, packet_size, limit, 0) == first_room(p, packet_size, limit, i as int),
            invariant
                temp_bandwidth <= self@.current_bandwidth,
                self@.wf(),
                self@ == start.cleaned(now),
                p == self@.packets,
                limit == self@.bandwidth_limit,
                i <= p.len(),
                forall|j: int|
                    0 <= j < p.len() ==> !is_expired(#[trigger] p[j].1, now, self@.window_nanos),
            ensures
                self@ == start.cleaned(now),
                match wait_time {
                    Some(w) => {
                        let k = first_room(p, packet_size, limit, 0);
                        &&& k < p.len()
                        &&& w == self@.window_nanos - elapsed(now, p[k].1)
                    },
                    None => first_room(p, packet_size, limit, 0) == p.len(),
                },
            decreases p.len() - i,
        {
            let (size, time) = self.packets[i];
            proof {
                let t = p.subrange(i as int, p.len() as int);
                lemma_total_size_drop_first(t);
                lemma_total_size_nonneg(t.drop_first());
                assert(t.drop_first() =~= p.subrange(i + 1, p.len() as int));
            }
            temp_bandwidth = temp_bandwidth - size;
            if fits_under(temp_bandwidth, packet_size, self.bandwidth_limit) {
                let e = elapsed_nanos(now, time);
                wait_time = Some(self.window_nanos - e);
                break;
            }
            i = i + 1;
        }
        match wait_time {
            Some(wait_time) => Err(wait_time),
            None => Err(self.window_nanos),
        }
    }

    /// A tracker with no packets that forgets packets older than `window_size`
    /// and allows `bandwidth_limit` bytes within the window.
    pub fn new(window_size: Duration, bandwidth_limit: usize) -> (tracker: Self)
        ensures
            tracker@.wf(),
            tracker@.packets == Seq::<PacketRecord>::empty(),
            tracker@.window_nanos == duration_nanos(window_size),
            tracker@.bandwidth_limit == bandwidth_limit,
            tracker@.current_bandwidth == 0,
            tracker.clock_readings() == Seq::<u128>::empty(),
    {
        let window_nanos = duration_as_nanos(&window_size);
        let origin = instant_now();
        Self::from_parts(window_nanos, bandwidth_limit, origin)
    }

    /// A tracker with no packets that forgets packets older than `secs`
    /// seconds and `subsec_nanos` nanoseconds, and allows `bandwidth_limit`
    /// bytes within the window.
    pub fn with_window(secs: u64, subsec_nanos: u32, bandwidth_limit: usize) -> (tracker: Self)
        requires
            subsec_nanos < 1_000_000_000,
        ensures
            tracker@.wf(),
            tracker@.packets == Seq::<PacketRecord>::empty(),
            tracker@.window_nanos == secs * 1_000_000_000 + subsec_nanos,
            tracker@.bandwidth_limit == bandwidth_limit,
            tracker@.current_bandwidth == 0,
            tracker.clock_readings() == Seq::<u128>::empty(),
    {
        let window_size = duration_new(secs, subsec_nanos);
        Self::new(window_size, bandwidth_limit)
    }

    /// Reads the clock: nanoseconds since the tracker was created. A reading
    /// earlier than the newest packet on record, which a monotonic clock never
    /// gives, counts as the time of that packet.
    fn read_clock(&mut self) -> (now: u128)
        requires
            old(self)@.wf(),
        ensures
            final(self)@ == old(self)@,
            final(self).clock_readings().len() == old(self).clock_readings().len() + 1,
            final(self).clock_readings().drop_last() == old(self).clock_readings(),
            now == stamp(final(self).clock_readings().last(), old(self)@.newest_sent()),
            readings_in_order(final(self).clock_readings()),
    {
        let reading = self.clock.read();
        let len = self.packets.len();
        if len > 0 {
            let newest = self.packets[len - 1].1;
            if reading < newest {
                return newest;
            }
        }
        reading
    }

    /// Records a packet of `packet_size` bytes sent now, then forgets the
    /// packets that have left the window by a second reading of the clock.
    pub fn add_packet(&mut self, packet_size: usize)
        requires
            old(self)@.wf(),
            old(self)@.current_bandwidth + packet_size <= usize::MAX,
        ensures
            final(self)@.wf(),
            exists|sent: u128, now: u128|
                old(self)@.newest_sent() <= sent <= now && final(self)@ == #[trigger] old(
                    self,
                )@.recorded(packet_size, sent).cleaned(now),
            final(self).clock_readings().len() == old(self).clock_readings().len() + 2,
            final(self).clock_readings().subrange(0, old(self).clock_readings().len() as int)
                == old(self).clock_readings(),
            readings_in_order(final(self).clock_readings()),
            ({
                let n = old(self).clock_readings().len() as int;
                let sent = stamp(final(self).clock_readings()[n], old(self)@.newest_sent());
                let now = stamp(final(self).clock_readings()[n + 1], sent);
                &&& final(self)@ == old(self)@.recorded(packet_size, sent).cleaned(now)
                &&& !is_expired(sent, now, old(self)@.window_nanos) ==> final(self)@.packets.last()
                    == (packet_size, sent)
            }),
    {
        let ghost readings0 = self.clock_readings();
        let sent = self.read_clock();
        self.record_packet_at(packet_size, sent);
        let ghost mid = self@;
        let ghost readings1 = self.clock_readings();
        let now = self.read_clock();
        self.cleanup_at(now);
        assert(mid == old(self)@.recorded(packet_size, sent));
        assert(final(self)@ == old(self)@.recorded(packet_size, sent).cleaned(now));
        proof {
            let n = readings0.len() as int;
            let r = self.clock_readings();
            assert(r.drop_last() == readings1);
            assert(readings1.drop_last() == readings0);
            assert(r[n] == readings1.last());
            assert(mid.newest_sent() == sent);
            assert(r.subrange(0, n) =~= readings0);
            if !is_expired(sent, now, old(self)@.window_nanos) {
                lemma_packet_just_added_stays(old(self)@, packet_size, sent, now);
            }
        }
    }

    /// Forgets the packets that have left the window by now.
    pub fn cleanup(&mut self)
        requires
            old(self)@.wf(),
        ensures
            final(self)@.wf(),
            exists|now: u128|
                old(self)@.newest_sent() <= now && final(self)@ == #[trigger] old(self)@.cleaned(
                    now,
                ),
            final(self).clock_readings().drop_last() == old(self).clock_readings(),
            final(self).clock_readings().len() == old(self).clock_readings().len() + 1,
            readings_in_order(final(self).clock_readings()),
            final(self)@ == old(self)@.cleaned(
                stamp(final(self).clock_readings().last(), old(self)@.newest_sent()),
            ),
    {
        let now = self.read_clock();
        self.cleanup_at(now);
    }

    /// Returns `Ok(())` if a packet of `packet_size` bytes can be sent
    /// immediately, otherwise `Err(wait_time)` where `wait_time` is the time
    /// that needs to pass before the packet can be sent. The expired packets
    /// are forgotten first.
    pub fn can_send_packet(&mut self, packet_size: usize) -> (r: Result<(), Duration>)
        requires
            old(self)@.wf(),
        ensures
            final(self)@.wf(),
            exists|now: u128|
                {
                    &&& old(self)@.newest_sent() <= now
                    &&& final(self)@ == #[trigger] old(self)@.cleaned(now)
                    &&& (r is Ok <==> old(self)@.send_decision(packet_size, now) is Ok)
                    &&& (r matches Err(d) ==> (old(self)@.send_decision(packet_size, now) matches Err(
                        w,
                    ) && duration_nanos(d) == w))
                },
            r matches Err(d) ==> duration_nanos(d) <= old(self)@.window_nanos,
            final(self).clock_readings().drop_last() == old(self).clock_readings(),
            final(self).clock_readings().len() == old(self).clock_readings().len() + 1,
            readings_in_order(final(self).clock_readings()),
            ({
                let now = stamp(final(self).clock_readings().last(), old(self)@.newest_sent());
                &&& final(self)@ == old(self)@.cleaned(now)
                &&& (r is Ok <==> old(self)@.send_decision(packet_size, now) is Ok)
                &&& (r matches Err(d) ==> (old(self)@.send_decision(packet_size, now) matches Err(
                    w,
                ) && duration_nanos(d) == w))
            }),
    {
        let now = self.read_clock();
        match self.can_send_packet_at(packet_size, now) {
            Ok(()) => Ok(()),
            Err(wait_nanos) => {
                assert(wait_nanos <= self@.window_nanos);
                Err(duration_from_nanos(wait_nanos))
            },
        }
    }

    /// The number of packets on record.
    pub fn packet_count(&self) -> (n: usize)
        ensures
            n == self@.packets.len(),
    {
        self.packets.len()
    }

    /// The sizes of the packets on record, oldest first.
    pub fn packet_sizes(&self) -> (sizes: Vec<usize>)
        ensures
            sizes@.len() == self@.packets.len(),
            forall|i: int| 0 <= i < sizes@.len() ==> sizes@[i] == self@.packets[i].0,
    {
        let mut sizes: Vec<usize> = Vec::new();
        let mut i: usize = 0;
        while i < self.packets.len()
            invariant
                i <= self@.packets.len(),
                sizes@.len() == i,
                forall|j: int| 0 <= j < i ==> sizes@[j] == self@.packets[j].0,
            decreases self@.packets.len() - i,
        {
            sizes.push(self.packets[i].0);
            i = i + 1;
        }
        sizes
    }

    /// The bytes sent within the window, as last cleaned up.
    pub fn current_bandwidth(&self) -> (b: usize)
        ensures
            b == self@.current_bandwidth,
    {
        self.current_bandwidth
    }

    /// The number of bytes allowed within the window.
    pub fn bandwidth_limit(&self) -> (b: usize)
        ensures
            b == self@.bandwidth_limit,
    {
        self.bandwidth_limit
    }

    /// The length of the window in nanoseconds.
    pub fn window_nanos(&self) -> (w: u128)
        ensures
            w == self@.window_nanos,
    {
        self.window_nanos
    }
}

} // verus!
