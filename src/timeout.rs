//! Liveness deadlines: which bindings have gone stale, and their orders.
use vstd::prelude::*;
use crate::wallet::{Deployed, Wallet};

verus! {

/// Seconds a pending binding may wait for its first liveness report.
pub const PENDING_LIMIT_SECS: i64 = 15 * 60;

/// Seconds an active binding may go without a liveness report.
pub const REPORT_LIMIT_SECS: i64 = 10 * 60;

/// The order of a binding, where it has one.
pub open spec fn order_of(d: Deployed) -> Option<u32> {
    match d {
        Deployed::NOTASSIGNED => None,
        Deployed::DEPLOYING { orderid, .. } => Some(orderid),
        Deployed::DEPLOYED { orderid, .. } => Some(orderid),
    }
}

/// The order to cancel for `w` at time `now`: a pending binding whose start
/// lies more than the pending limit back, or an active one whose last report
/// lies more than the report limit back. A missing time flags nothing.
pub open spec fn overdue_order(w: Wallet, now: int) -> Option<u32> {
    match w.deploy {
        Deployed::NOTASSIGNED => None,
        Deployed::DEPLOYING { orderid, .. } => match w.start_time {
            Some(t) => if now - t > PENDING_LIMIT_SECS {
                Some(orderid)
            } else {
                None
            },
            None => None,
        },
        Deployed::DEPLOYED { orderid, .. } => match w.report_last_time {
            Some(t) => if now - t > REPORT_LIMIT_SECS {
                Some(orderid)
            } else {
                None
            },
            None => None,
        },
    }
}

/// The orders to cancel at time `now`, each once, in the order in which
/// the wallets of `s` first flag them.
pub open spec fn overdue_orders(s: Seq<Wallet>, now: int) -> Seq<u32>
    decreases s.len(),
{
    if s.len() == 0 {
        Seq::empty()
    } else {
        let prev = overdue_orders(s.drop_last(), now);
        match overdue_order(s.last(), now) {
            Some(o) => if prev.contains(o) {
                prev
            } else {
                prev.push(o)
            },
            None => prev,
        }
    }
}

/// Some wallet of `s` is overdue at `now` with the order `o`.
pub open spec fn is_flagged_order(s: Seq<Wallet>, now: int, o: u32) -> bool {
    exists|i: int| 0 <= i < s.len() && #[trigger] overdue_order(s[i], now) == Some(o)
}

/// The order to cancel for one wallet at time `now`.
pub fn overdue(w: &Wallet, now: i64) -> (r: Option<u32>)
    ensures
        r == overdue_order(*w, now as int),
{
    match &w.deploy {
        Deployed::NOTASSIGNED => None,
        Deployed::DEPLOYING { orderid, .. } => match w.start_time {
            Some(t) => {
                if (now as i128) - (t as i128) > PENDING_LIMIT_SECS as i128 {
                    Some(*orderid)
                } else {
                    None
                }
            },
            None => None,
        },
        Deployed::DEPLOYED { orderid, .. } => match w.report_last_time {
            Some(t) => {
                if (now as i128) - (t as i128) > REPORT_LIMIT_SECS as i128 {
                    Some(*orderid)
                } else {
                    None
                }
            },
            None => None,
        },
    }
}

/// The orders to cancel name each flagged order exactly once, and no other.
pub proof fn lemma_overdue_orders_exact(s: Seq<Wallet>, now: int)
    ensures
        overdue_orders(s, now).no_duplicates(),
        forall|o: u32| #[trigger]
            overdue_orders(s, now).contains(o) <==> is_flagged_order(s, now, o),
    decreases s.len(),
{
    if s.len() > 0 {
        let d = s.drop_last();
        let prev = overdue_orders(d, now);
        lemma_overdue_orders_exact(d, now);
        assert forall|o: u32| is_flagged_order(s, now, o) <==> (is_flagged_order(d, now, o)
            || overdue_order(s.last(), now) == Some(o)) by {
            if is_flagged_order(s, now, o) {
                let i = choose|i: int| 0 <= i < s.len() && #[trigger] overdue_order(s[i], now)
                    == Some(o);
                if i < s.len() - 1 {
                    assert(d[i] == s[i]);
                }
            }
            if is_flagged_order(d, now, o) {
                let i = choose|i: int| 0 <= i < d.len() && #[trigger] overdue_order(d[i], now)
                    == Some(o);
                assert(s[i] == d[i]);
            }
            if overdue_order(s.last(), now) == Some(o) {
                assert(s[s.len() - 1] == s.last());
            }
        }
        match overdue_order(s.last(), now) {
            Some(o) => {
                if !prev.contains(o) {
                    let r = prev.push(o);
                    assert forall|x: u32| #[trigger] r.contains(x) <==> (prev.contains(x) || x
                        == o) by {
                        if r.contains(x) {
                            let k = choose|k: int| 0 <= k < r.len() && r[k] == x;
                            if k < prev.len() {
                                assert(prev[k] == r[k]);
                            }
                        }
                        if prev.contains(x) {
                            let k = choose|k: int| 0 <= k < prev.len() && prev[k] == x;
                            assert(r[k] == prev[k]);
                        }
                        if x == o {
                            assert(r[prev.len() as int] == o);
                        }
                    }
                    assert forall|i: int, j: int|
                        0 <= i < r.len() && 0 <= j < r.len() && i != j implies r[i] != r[j] by {
                        if i < prev.len() && j < prev.len() {
                            assert(r[i] == prev[i] && r[j] == prev[j]);
                        } else if i < prev.len() {
                            assert(r[i] == prev[i]);
                        } else {
                            assert(r[j] == prev[j]);
                        }
                    }
                }
            },
            None => {},
        }
    }
}

/// A pending wallet whose start lies fifteen minutes and one second back is
/// flagged, its order listed for cancellation; at fifteen minutes exactly it
/// is not flagged.
pub proof fn lemma_pending_deadline(s: Seq<Wallet>, i: int, start: i64)
    requires
        0 <= i < s.len(),
        s[i].deploy is DEPLOYING,
        s[i].start_time == Some(start),
    ensures
        overdue_order(s[i], start + 15 * 60 + 1) == order_of(s[i].deploy),
        overdue_orders(s, start + 15 * 60 + 1).contains(order_of(s[i].deploy)->Some_0),
        overdue_order(s[i], start + 15 * 60) is None,
{
    lemma_overdue_orders_exact(s, start + 15 * 60 + 1);
    assert(is_flagged_order(s, start + 15 * 60 + 1, order_of(s[i].deploy)->Some_0));
}

/// An active wallet whose last report lies ten minutes and one second back
/// is flagged, its order listed for cancellation; at ten minutes exactly it
/// is not flagged.
pub proof fn lemma_report_deadline(s: Seq<Wallet>, i: int, last: i64)
    requires
        0 <= i < s.len(),
        s[i].deploy is DEPLOYED,
        s[i].report_last_time == Some(last),
    ensures
        overdue_order(s[i], last + 10 * 60 + 1) == order_of(s[i].deploy),
        overdue_orders(s, last + 10 * 60 + 1).contains(order_of(s[i].deploy)->Some_0),
        overdue_order(s[i], last + 10 * 60) is None,
{
    lemma_overdue_orders_exact(s, last + 10 * 60 + 1);
    assert(is_flagged_order(s, last + 10 * 60 + 1, order_of(s[i].deploy)->Some_0));
}

/// A wallet with no binding is never flagged.
pub proof fn lemma_unbound_never_flagged(w: Wallet, now: int)
    requires
        w.deploy is NOTASSIGNED,
    ensures
        overdue_order(w, now) is None,
{
}

} // verus!
