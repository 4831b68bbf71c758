use vstd::prelude::*;
use crate::battery::{Battery, initial_reading};

verus! {

/// Seconds between two polls of the battery when none is configured.
pub const DEFAULT_POLL_SECS: u64 = 5;

/// The poll interval: the configured one, else the default.
pub fn poll_interval_secs(configured: Option<u64>) -> (r: u64)
    ensures
        r == match configured {
            Some(t) => t,
            None => DEFAULT_POLL_SECS,
        },
{
    match configured {
        Some(t) => t,
        None => DEFAULT_POLL_SECS,
    }
}

/// Poll `i` of a sequence of readings is a change: it differs from the
/// reading held as current, which is the poll before it, or the initial
/// reading for the first poll.
pub open spec fn is_change(polls: Seq<Battery>, i: int) -> bool {
    polls[i] != if i == 0 {
        initial_reading()
    } else {
        polls[i - 1]
    }
}

/// The indices among the first `n` polls at which a render is due, in order.
pub open spec fn change_points(polls: Seq<Battery>, n: nat) -> Seq<usize>
    decreases n,
{
    if n == 0 {
        Seq::empty()
    } else {
        let earlier = change_points(polls, (n - 1) as nat);
        if is_change(polls, n - 1) {
            earlier.push((n - 1) as usize)
        } else {
            earlier
        }
    }
}

/// Among the first `n` polls, a render is due at poll `k` exactly when that
/// poll differs from the one before it (from the initial reading, for the
/// first), and renders come in the order of the polls, once each.
pub proof fn lemma_renders_once_per_change(polls: Seq<Battery>, n: nat, k: int)
    requires
        n <= polls.len(),
        n <= usize::MAX + 1,
    ensures
        0 <= k < n ==> (change_points(polls, n).contains(k as usize) <==> is_change(polls, k)),
        forall|a: int, b: int|
            0 <= a < b < change_points(polls, n).len() ==> change_points(polls, n)[a]
                < change_points(polls, n)[b],
        forall|a: int|
            0 <= a < change_points(polls, n).len() ==> change_points(polls, n)[a] < n,
    decreases n,
{
    if n > 0 {
        let m = (n - 1) as nat;
        lemma_renders_once_per_change(polls, m, k);
        let earlier = change_points(polls, m);
        if is_change(polls, n - 1) {
            let cp = earlier.push((n - 1) as usize);
            assert forall|a: int| 0 <= a < cp.len() implies cp[a] < n by {
                if a < earlier.len() {
                    assert(cp[a] == earlier[a]);
                }
            }
            if 0 <= k < n {
                if k == n - 1 {
                    assert(cp[cp.len() - 1] == k as usize);
                } else {
                    if cp.contains(k as usize) {
                        let a = choose|a: int| 0 <= a < cp.len() && cp[a] == k as usize;
                        assert(a != cp.len() - 1);
                        assert(earlier[a] == k as usize);
                    }
                    if earlier.contains(k as usize) {
                        let a = choose|a: int| 0 <= a < earlier.len() && earlier[a] == k as usize;
                        assert(cp[a] == k as usize);
                    }
                }
            }
        }
    }
}

/// The change-detection state of the polling loop: the reading held as
/// current.
pub struct ChangeDetector {
    pub previous: Battery,
}

impl ChangeDetector {
    /// Starts from the initial reading, so that any real first poll that
    /// differs from it triggers a render.
    pub fn new() -> (r: ChangeDetector)
        ensures
            r.previous == initial_reading(),
    {
        ChangeDetector { previous: Battery::sentinel() }
    }

    /// Takes a freshly polled reading and says whether a render and apply is
    /// due: exactly when it differs from the current one. The polled reading
    /// becomes current either way, so a failed apply is not retried until the
    /// next change.
    pub fn observe(&mut self, polled: Battery) -> (render: bool)
        ensures
            render == (polled != old(self).previous),
            final(self).previous == polled,
    {
        let render = polled != self.previous;
        self.previous = polled;
        render
    }
}

/// Feeds a sequence of polled readings through a fresh detector and returns
/// the indices of the polls that trigger a render.
pub fn render_indices(polls: &Vec<Battery>) -> (r: Vec<usize>)
    ensures
        r@ == change_points(polls@, polls@.len()),
{
    let mut detector = ChangeDetector::new();
    let mut out: Vec<usize> = Vec::new();
    let mut i: usize = 0;
    while i < polls.len()
        invariant
            i <= polls@.len(),
            out@ == change_points(polls@, i as nat),
            detector.previous == if i == 0 {
                initial_reading()
            } else {
                polls@[i - 1]
            },
        decreases polls@.len() - i,
    {
        if detector.observe(polls[i]) {
            out.push(i);
        }
        i = i + 1;
    }
    out
}

} // verus!
