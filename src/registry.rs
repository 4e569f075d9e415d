//! The wallet registry: one wallet per address, never an unclassified one.
use vstd::prelude::*;
use crate::wallet::{AddressType, Deployed, Wallet};
use crate::classify::{classify, role_of_replies};
use crate::clock::now_timestamp;
use crate::timeout::{overdue, overdue_orders, is_flagged_order, lemma_overdue_orders_exact};

verus! {

/// No address occurs twice, and every wallet has a role.
pub open spec fn registry_wf(s: Seq<Wallet>) -> bool {
    &&& forall|i: int, j: int|
        0 <= i < s.len() && 0 <= j < s.len() && i != j ==> #[trigger] s[i].address@
            != #[trigger] s[j].address@
    &&& forall|i: int| 0 <= i < s.len() ==> #[trigger] s[i].addr_type != AddressType::NULL
}

/// Some wallet of `s` has the address `a`.
pub open spec fn contains_address(s: Seq<Wallet>, a: Seq<char>) -> bool {
    exists|i: int| 0 <= i < s.len() && #[trigger] s[i].address@ == a
}

/// The position of the wallet with address `a`, where there is one.
pub open spec fn index_of(s: Seq<Wallet>, a: Seq<char>) -> int {
    choose|i: int| 0 <= i < s.len() && #[trigger] s[i].address@ == a
}

/// `w` is the wallet that classification creates for `a` with role `role`.
pub open spec fn is_fresh(w: Wallet, a: Seq<char>, role: AddressType) -> bool {
    &&& w.address@ == a
    &&& w.addr_type == role
    &&& w.start_time is None
    &&& w.report_last_time is None
    &&& w.deploy is NOTASSIGNED
}

/// The binding that a status report gives the address `a`, whose binding was
/// `d`: the last pair naming `a` wins, and with none `d` stays.
pub open spec fn reported_binding(d: Deployed, a: Seq<char>, lists: Seq<(String, Deployed)>) -> Deployed
    decreases lists.len(),
{
    if lists.len() == 0 {
        d
    } else if lists.last().0@ == a {
        lists.last().1
    } else {
        reported_binding(d, a, lists.drop_last())
    }
}

/// `w` with its binding replaced by `d`.
pub open spec fn with_binding(w: Wallet, d: Deployed) -> Wallet {
    Wallet { deploy: d, ..w }
}

/// The registry `s` after a status report: each wallet takes the binding
/// that the report gives its address.
pub open spec fn refreshed(s: Seq<Wallet>, lists: Seq<(String, Deployed)>) -> Seq<Wallet> {
    Seq::new(
        s.len(),
        |i: int| with_binding(s[i], reported_binding(s[i].deploy, s[i].address@, lists)),
    )
}

/// A wallet that may be assigned: role `SUB` and no binding.
pub open spec fn is_candidate(w: Wallet) -> bool {
    w.addr_type == AddressType::SUB && w.deploy is NOTASSIGNED
}

/// The assignment candidates of `s`, in order.
pub open spec fn candidates(s: Seq<Wallet>) -> Seq<Wallet> {
    s.filter(|w: Wallet| is_candidate(w))
}

/// Why an assignment was refused.
#[derive(Debug, Clone, Copy, PartialEq, Eq, Structural)]
pub enum AssignError {
    /// No wallet has the address.
    NotFound,
    /// The wallet is already bound to an order.
    Conflict,
}

/// `w` bound to `d`, its start stamped `now`.
pub open spec fn assigned(w: Wallet, d: Deployed, now: i64) -> Wallet {
    Wallet { deploy: d, start_time: Some(now), ..w }
}

/// `w` after a liveness report at `now`: a pending binding becomes active,
/// its order, server and connection kept, and the report time is stamped;
/// any other wallet is left as it is.
pub open spec fn reported(w: Wallet, now: i64) -> Wallet {
    match w.deploy {
        Deployed::DEPLOYING { orderid, serverid, sshaddr, sshport } => Wallet {
            report_last_time: Some(now),
            deploy: Deployed::DEPLOYED { orderid, serverid, sshaddr, sshport },
            ..w
        },
        _ => w,
    }
}

proof fn lemma_candidate_from(s: Seq<Wallet>, k: int)
    requires
        0 <= k < candidates(s).len(),
    ensures
        s.contains(candidates(s)[k]),
    decreases s.len(),
{
    reveal(Seq::filter);
    let sub = candidates(s.drop_last());
    if is_candidate(s.last()) && k == sub.len() {
        assert(s[s.len() - 1] == s.last());
    } else {
        lemma_candidate_from(s.drop_last(), k);
        let j = choose|j: int| 0 <= j < s.drop_last().len() && s.drop_last()[j] == sub[k];
        assert(s[j] == s.drop_last()[j]);
    }
}

/// Candidate selection returns exactly the wallets with role `SUB` and no
/// binding: never a `MASTER` wallet, never a bound one, and none left out.
pub proof fn lemma_candidates_exact(s: Seq<Wallet>)
    ensures
        forall|w: Wallet| #[trigger]
            candidates(s).contains(w) <==> (s.contains(w) && is_candidate(w)),
{
    broadcast use vstd::seq_lib::group_filter_ensures;

    assert forall|w: Wallet| #[trigger]
        candidates(s).contains(w) <==> (s.contains(w) && is_candidate(w)) by {
        if candidates(s).contains(w) {
            let k = choose|k: int| 0 <= k < candidates(s).len() && candidates(s)[k] == w;
            lemma_candidate_from(s, k);
        }
        if s.contains(w) && is_candidate(w) {
            let i = choose|i: int| 0 <= i < s.len() && s[i] == w;
            assert(candidates(s).contains(s[i]));
        }
    }
}

/// The position of a wallet in a well-formed registry is fixed by its address.
pub proof fn lemma_index_of(s: Seq<Wallet>, a: Seq<char>, i: int)
    requires
        registry_wf(s),
        0 <= i < s.len(),
        s[i].address@ == a,
    ensures
        contains_address(s, a),
        index_of(s, a) == i,
{
    assert(contains_address(s, a));
    let j = index_of(s, a);
    assert(s[j].address@ == a);
}

fn listed(v: &Vec<u32>, x: u32) -> (r: bool)
    ensures
        r == v@.contains(x),
{
    let mut i: usize = 0;
    while i < v.len()
        invariant
            i <= v@.len(),
            forall|j: int| 0 <= j < i ==> v@[j] != x,
        decreases v@.len() - i,
    {
        if v[i] == x {
            return true;
        }
        i += 1;
    }
    false
}

/// The registry of wallets, keyed by address.
pub struct Address {
    wallets: Vec<Wallet>,
}

impl View for Address {
    type V = Seq<Wallet>;

    closed spec fn view(&self) -> Seq<Wallet> {
        self.wallets@
    }
}

impl Default for Address {
    fn default() -> (r: Address)
        ensures
            r.wf(),
            r@ == Seq::<Wallet>::empty(),
    {
        Address::new()
    }
}

impl Address {
    /// The registry is well formed.
    pub open spec fn wf(&self) -> bool {
        registry_wf(self@)
    }

    /// An empty registry.
    pub fn new() -> (r: Address)
        ensures
            r.wf(),
            r@ == Seq::<Wallet>::empty(),
    {
        Address { wallets: Vec::new() }
    }

    /// Number of wallets held.
    pub fn len(&self) -> (r: usize)
        ensures
            r == self@.len(),
    {
        self.wallets.len()
    }

    fn position(&self, key: &String) -> (r: Option<usize>)
        requires
            self.wf(),
        ensures
            match r {
                Some(i) => i < self@.len() && contains_address(self@, key@) && index_of(self@, key@) == i,
                None => !contains_address(self@, key@),
            },
    {
        let mut i: usize = 0;
        while i < self.wallets.len()
            invariant
                self.wf(),
                i <= self.wallets@.len(),
                forall|j: int| 0 <= j < i ==> #[trigger] self.wallets@[j].address@ != key@,
            decreases self.wallets@.len() - i,
        {
            if self.wallets[i].address == *key {
                proof {
                    lemma_index_of(self@, key@, i as int);
                }
                return Some(i);
            }
            i += 1;
        }
        None
    }

    /// Whether a wallet with this address is held.
    pub fn contains(&self, address: &str) -> (r: bool)
        requires
            self.wf(),
        ensures
            r == contains_address(self@, address@),
    {
        let key = address.to_owned();
        self.position(&key).is_some()
    }

    /// A copy of the wallet with this address, where there is one.
    pub fn get(&self, address: &str) -> (r: Option<Wallet>)
        requires
            self.wf(),
        ensures
            r is Some <==> contains_address(self@, address@),
            r is Some ==> r->Some_0 == self@[index_of(self@, address@)],
    {
        let key = address.to_owned();
        match self.position(&key) {
            Some(i) => Some(self.wallets[i].duplicate()),
            None => None,
        }
    }

    /// Copies of all wallets, in the registry's order.
    pub fn wallets(&self) -> (r: Vec<Wallet>)
        ensures
            r@ == self@,
    {
        let mut r: Vec<Wallet> = Vec::new();
        let mut i: usize = 0;
        while i < self.wallets.len()
            invariant
                i <= self.wallets@.len(),
                r@ == self.wallets@.take(i as int),
            decreases self.wallets@.len() - i,
        {
            r.push(self.wallets[i].duplicate());
            i += 1;
            assert(r@ =~= self.wallets@.take(i as int));
        }
        assert(r@ =~= self.wallets@);
        r
    }

    /// The wallets to track, one per configured address, none classified yet.
    pub fn load_address_file(addresses: &Vec<String>) -> (r: Vec<Wallet>)
        ensures
            r@.len() == addresses@.len(),
            forall|i: int|
                0 <= i < r@.len() ==> #[trigger] r@[i].address == addresses@[i] && is_fresh(
                    r@[i],
                    addresses@[i]@,
                    AddressType::NULL,
                ),
    {
        let mut r: Vec<Wallet> = Vec::new();
        let mut i: usize = 0;
        while i < addresses.len()
            invariant
                i <= addresses@.len(),
                r@.len() == i,
                forall|j: int|
                    0 <= j < i ==> #[trigger] r@[j].address == addresses@[j] && is_fresh(
                        r@[j],
                        addresses@[j]@,
                        AddressType::NULL,
                    ),
            decreases addresses@.len() - i,
        {
            r.push(Wallet::new(addresses[i].clone(), AddressType::NULL));
            i += 1;
        }
        r
    }

    fn refresh(&mut self, lists: &Vec<(String, Deployed)>)
        requires
            old(self).wf(),
        ensures
            final(self).wf(),
            final(self)@ == refreshed(old(self)@, lists@),
    {
        let ghost start = self@;
        let mut k: usize = 0;
        assert(self@ =~= refreshed(start, lists@.take(0)));
        while k < lists.len()
            invariant
                registry_wf(start),
                self.wf(),
                k <= lists@.len(),
                self@ == refreshed(start, lists@.take(k as int)),
            decreases lists@.len() - k,
        {
            let pair = &lists[k];
            let ghost prev = self@;
            let ghost t1 = lists@.take(k as int + 1);
            assert(t1.drop_last() =~= lists@.take(k as int));
            assert(t1.last() == lists@[k as int]);
            match self.position(&pair.0) {
                Some(j) => {
                    let mut w = self.wallets[j].duplicate();
                    w.deploy = pair.1.duplicate();
                    self.wallets.set(j, w);
                    assert forall|i: int| 0 <= i < self@.len() implies #[trigger] self@[i]
                        == refreshed(start, t1)[i] by {
                        if i != j {
                            assert(prev[i].address@ != prev[j as int].address@);
                        }
                    }
                },
                None => {
                    assert forall|i: int| 0 <= i < self@.len() implies #[trigger] self@[i]
                        == refreshed(start, t1)[i] by {
                        assert(prev[i].address@ != pair.0@);
                    }
                },
            }
            k += 1;
            assert(self@ =~= refreshed(start, lists@.take(k as int)));
        }
        assert(lists@.take(k as int) =~= lists@);
    }

    fn select_candidates(&self) -> (r: Vec<Wallet>)
        ensures
            r@ == candidates(self@),
    {
        let mut r: Vec<Wallet> = Vec::new();
        let mut i: usize = 0;
        assert(self.wallets@.take(0) =~= Seq::<Wallet>::empty());
        reveal(Seq::filter);
        while i < self.wallets.len()
            invariant
                i <= self.wallets@.len(),
                r@ == candidates(self.wallets@.take(i as int)),
            decreases self.wallets@.len() - i,
        {
            let ghost t1 = self.wallets@.take(i as int + 1);
            assert(t1.drop_last() =~= self.wallets@.take(i as int));
            reveal(Seq::filter);
            let w = &self.wallets[i];
            if w.addr_type == AddressType::SUB && w.deploy.is_unassigned() {
                r.push(w.duplicate());
            }
            i += 1;
        }
        assert(self.wallets@.take(i as int) =~= self.wallets@);
        r
    }

    /// Applies a status report, then returns the assignment candidates.
    /// `status` is `None` where the orders could not be listed: nothing is
    /// refreshed. Otherwise it holds the `(address, binding)` pairs found on
    /// running orders and the errors met on the way; any error aborts the
    /// refresh and no candidate is returned.
    pub fn filter(&mut self, status: &Option<(Vec<(String, Deployed)>, Vec<String>)>) -> (r: Vec<
        Wallet,
    >)
        requires
            old(self).wf(),
        ensures
            final(self).wf(),
            match *status {
                None => final(self)@ == old(self)@ && r@ == candidates(old(self)@),
                Some((lists, errors)) => if errors@.len() > 0 {
                    final(self)@ == old(self)@ && r@.len() == 0
                } else {
                    final(self)@ == refreshed(old(self)@, lists@) && r@ == candidates(
                        final(self)@,
                    )
                },
            },
    {
        match status {
            Some(report) => {
                if report.1.len() > 0 {
                    return Vec::new();
                }
                self.refresh(&report.0);
            },
            None => {},
        }
        self.select_candidates()
    }

    /// Binds the wallet of `wallet_adress` to the pending binding `deploy`,
    /// its start stamped `now`. Refused with `NotFound` where no wallet has the address, and
    /// with `Conflict` where the wallet is already bound; then nothing changes.
    pub fn assign_at(&mut self, wallet_adress: &str, deploy: Deployed, now: i64) -> (r: Result<
        (),
        AssignError,
    >)
        requires
            old(self).wf(),
            deploy is DEPLOYING,
        ensures
            final(self).wf(),
            !contains_address(old(self)@, wallet_adress@) ==> r == Err::<(), AssignError>(
                AssignError::NotFound,
            ) && final(self)@ == old(self)@,
            contains_address(old(self)@, wallet_adress@) && !(old(self)@[index_of(
                old(self)@,
                wallet_adress@,
            )].deploy is NOTASSIGNED) ==> r == Err::<(), AssignError>(AssignError::Conflict)
                && final(self)@ == old(self)@,
            contains_address(old(self)@, wallet_adress@) && old(self)@[index_of(
                old(self)@,
                wallet_adress@,
            )].deploy is NOTASSIGNED ==> r == Ok::<(), AssignError>(()) && final(self)@ == old(
                self,
            )@.update(
                index_of(old(self)@, wallet_adress@),
                assigned(old(self)@[index_of(old(self)@, wallet_adress@)], deploy, now),
            ),
    {
        let key = wallet_adress.to_owned();
        match self.position(&key) {
            None => Err(AssignError::NotFound),
            Some(j) => {
                if !self.wallets[j].deploy.is_unassigned() {
                    return Err(AssignError::Conflict);
                }
                let mut w = self.wallets[j].duplicate();
                w.deploy = deploy;
                w.start_time = Some(now);
                self.wallets.set(j, w);
                Ok(())
            },
        }
    }

    /// Binds the wallet of `wallet_adress` to `deploy`, its start stamped
    /// with the current time; refused as `assign_at` refuses.
    pub fn assgin_server(&mut self, wallet_adress: &str, deploy: Deployed) -> (r: Result<
        (),
        AssignError,
    >)
        requires
            old(self).wf(),
            deploy is DEPLOYING,
        ensures
            final(self).wf(),
            !contains_address(old(self)@, wallet_adress@) ==> r == Err::<(), AssignError>(
                AssignError::NotFound,
            ) && final(self)@ == old(self)@,
            contains_address(old(self)@, wallet_adress@) && !(old(self)@[index_of(
                old(self)@,
                wallet_adress@,
            )].deploy is NOTASSIGNED) ==> r == Err::<(), AssignError>(AssignError::Conflict)
                && final(self)@ == old(self)@,
            contains_address(old(self)@, wallet_adress@) && old(self)@[index_of(
                old(self)@,
                wallet_adress@,
            )].deploy is NOTASSIGNED ==> r == Ok::<(), AssignError>(()) && exists|t: i64|
                final(self)@ == old(self)@.update(
                    index_of(old(self)@, wallet_adress@),
                    #[trigger] assigned(old(self)@[index_of(old(self)@, wallet_adress@)], deploy, t),
                ),
    {
        let now = now_timestamp();
        let r = self.assign_at(wallet_adress, deploy, now);
        proof {
            let i = index_of(old(self)@, wallet_adress@);
            if contains_address(old(self)@, wallet_adress@) && old(self)@[i].deploy is NOTASSIGNED {
                assert(final(self)@ == old(self)@.update(i, assigned(old(self)@[i], deploy, now)));
            }
        }
        r
    }

    /// Records a liveness report at `now` for the wallet of `wallet_adress`:
    /// a pending binding becomes active. Returns whether the address is held.
    pub fn record_report_at(&mut self, wallet_adress: &str, now: i64) -> (r: bool)
        requires
            old(self).wf(),
        ensures
            final(self).wf(),
            r == contains_address(old(self)@, wallet_adress@),
            !r ==> final(self)@ == old(self)@,
            r ==> final(self)@ == old(self)@.update(
                index_of(old(self)@, wallet_adress@),
                reported(old(self)@[index_of(old(self)@, wallet_adress@)], now),
            ),
    {
        let key = wallet_adress.to_owned();
        match self.position(&key) {
            None => false,
            Some(j) => {
                let w = &self.wallets[j];
                match &w.deploy {
                    Deployed::DEPLOYING { orderid, serverid, sshaddr, sshport } => {
                        let next = Wallet {
                            address: w.address.clone(),
                            addr_type: w.addr_type,
                            start_time: w.start_time,
                            report_last_time: Some(now),
                            deploy: Deployed::DEPLOYED {
                                orderid: *orderid,
                                serverid: *serverid,
                                sshaddr: sshaddr.clone(),
                                sshport: *sshport,
                            },
                        };
                        self.wallets.set(j, next);
                    },
                    _ => {
                        assert(self@ =~= old(self)@.update(j as int, reported(old(self)@[j as int], now)));
                    },
                }
                true
            },
        }
    }

    /// Records a liveness report at the current time for the wallet of
    /// `wallet_adress`. Returns whether the address is held.
    pub fn update_log_collect_time(&mut self, wallet_adress: &str) -> (r: bool)
        requires
            old(self).wf(),
        ensures
            final(self).wf(),
            r == contains_address(old(self)@, wallet_adress@),
            !r ==> final(self)@ == old(self)@,
            r ==> exists|t: i64|
                final(self)@ == old(self)@.update(
                    index_of(old(self)@, wallet_adress@),
                    #[trigger] reported(old(self)@[index_of(old(self)@, wallet_adress@)], t),
                ),
    {
        let now = now_timestamp();
        let r = self.record_report_at(wallet_adress, now);
        proof {
            let i = index_of(old(self)@, wallet_adress@);
            if r {
                assert(final(self)@ == old(self)@.update(i, reported(old(self)@[i], now)));
            }
        }
        r
    }

    /// The orders to cancel at time `now`: each order of a stale binding,
    /// once, in the registry's order.
    pub fn timed_out_orders(&self, now: i64) -> (r: Vec<u32>)
        ensures
            r@ == overdue_orders(self@, now as int),
            r@.no_duplicates(),
            forall|o: u32| #[trigger] r@.contains(o) <==> is_flagged_order(self@, now as int, o),
    {
        let mut r: Vec<u32> = Vec::new();
        let mut i: usize = 0;
        assert(self.wallets@.take(0) =~= Seq::<Wallet>::empty());
        while i < self.wallets.len()
            invariant
                i <= self.wallets@.len(),
                r@ == overdue_orders(self.wallets@.take(i as int), now as int),
            decreases self.wallets@.len() - i,
        {
            let ghost t1 = self.wallets@.take(i as int + 1);
            assert(t1.drop_last() =~= self.wallets@.take(i as int));
            match overdue(&self.wallets[i], now) {
                Some(o) => {
                    if !listed(&r, o) {
                        r.push(o);
                    }
                },
                None => {},
            }
            i += 1;
        }
        assert(self.wallets@.take(i as int) =~= self.wallets@);
        proof {
            lemma_overdue_orders_exact(self@, now as int);
        }
        r
    }

    /// The orders to cancel at the current time, each once. The bindings
    /// themselves are not reset here: cancelling only informs the
    /// marketplace, and the next status refresh (`filter`) brings the
    /// registry back in line with it.
    pub fn filter_log_timeout(&self) -> (r: Vec<u32>)
        ensures
            exists|t: i64| r@ == #[trigger] overdue_orders(self@, t as int),
            r@.no_duplicates(),
    {
        let now = now_timestamp();
        self.timed_out_orders(now)
    }

    /// Records the classification of `address` from the replies of the master
    /// check and the sub check. An address already held is left as it is; an
    /// unclassified one is not inserted.
    pub fn check(
        &mut self,
        address: &str,
        master_reply: &Result<String, String>,
        sub_reply: &Result<String, String>,
    )
        requires
            old(self).wf(),
        ensures
            final(self).wf(),
            contains_address(old(self)@, address@) ==> final(self)@ == old(self)@,
            !contains_address(old(self)@, address@) && role_of_replies(*master_reply, *sub_reply)
                == AddressType::NULL ==> final(self)@ == old(self)@,
            !contains_address(old(self)@, address@) && role_of_replies(*master_reply, *sub_reply)
                != AddressType::NULL ==> {
                &&& final(self)@.len() == old(self)@.len() + 1
                &&& final(self)@.drop_last() == old(self)@
                &&& is_fresh(
                    final(self)@.last(),
                    address@,
                    role_of_replies(*master_reply, *sub_reply),
                )
            },
    {
        let key = address.to_owned();
        if self.position(&key).is_some() {
            return;
        }
        let role = classify(master_reply, sub_reply);
        if role != AddressType::NULL {
            let ghost before = self.wallets@;
            self.wallets.push(Wallet::new(key, role));
            assert(self.wallets@.drop_last() =~= before);
        }
    }
}

} // verus!
