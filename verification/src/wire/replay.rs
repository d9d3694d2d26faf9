//! Refusing tokens that were seen before.
//!
//! A token that fits can still have been recorded and sent once more. The guard keeps
//! the nonces of the latest epochs and reports a repetition. Nonces are random, so that
//! two honest sessions hardly ever share one.

use super::auth::AuthToken;
use std::collections::{BTreeMap, HashSet};
use vstd::prelude::*;

verus! {

/// How many epochs are kept: as many as are accepted at any time.
pub const KEEP_EPOCHS: usize = 3;

/// The nonces seen of late, by epoch.
#[derive(Debug)]
pub struct ReplayGuard {
    window: BTreeMap<u64, HashSet<u128>>,
}

/// The number that stands for the first `n` bytes of a nonce.
pub open spec fn nonce_prefix_number(nonce: Seq<u8>, n: nat) -> nat
    decreases n,
{
    if n == 0 {
        0
    } else {
        nonce_prefix_number(nonce, (n - 1) as nat) * 256 + nonce[n - 1] as nat
    }
}

/// The number that stands for a nonce.
pub open spec fn nonce_number(nonce: Seq<u8>) -> nat {
    nonce_prefix_number(nonce, nonce.len())
}

impl ReplayGuard {
    /// The epochs of which nonces are kept.
    pub closed spec fn epochs(self) -> Set<u64> {
        self.window@.dom()
    }

    /// Whether this nonce is kept for this epoch.
    pub closed spec fn seen(self, epoch: u64, nonce: Seq<u8>) -> bool {
        self.window@.contains_key(epoch) && self.window@[epoch]@.contains(
            nonce_number(nonce) as u128,
        )
    }

    /// Whether this nonce counts as new in this epoch.
    pub open spec fn is_new(self, epoch: u64, nonce: Seq<u8>) -> bool {
        !self.seen(epoch, nonce)
    }

    /// A guard that has seen nothing.
    pub fn new() -> (g: Self)
        ensures
            g.epochs() == Set::<u64>::empty(),
            forall|e: u64, n: Seq<u8>| !g.seen(e, n),
    {
        ReplayGuard { window: BTreeMap::new() }
    }

    /// Notes a nonce in an epoch and tells whether it is new there. Afterwards only
    /// the latest epochs are kept, with all that was noted in them.
    pub fn observe(&mut self, epoch: u64, nonce: &[u8; 12]) -> (fresh: bool)
        ensures
            fresh == old(self).is_new(epoch, nonce@),
            observed(*old(self), *final(self), epoch, nonce@),
    {
        let key: u128 = number_of(nonce);
        let mut nonces = match self.window.remove(&epoch) {
            Some(nonces) => nonces,
            None => HashSet::new(),
        };
        let fresh = nonces.insert(key);
        self.window.insert(epoch, nonces);
        proof {
            assert(self.epochs() =~= old(self).epochs().insert(epoch));
            assert forall|e: u64, n: Seq<u8>|
                n.len() == 12 && self.epochs().contains(e) implies #[trigger] self.seen(e, n) == (
            old(self).seen(e, n) || (e == epoch && n == nonce@)) by {
                lemma_nonce_number(n);
                lemma_nonce_number(nonce@);
                if nonce_number(n) == nonce_number(nonce@) {
                    lemma_nonce_number_injective(n, nonce@);
                }
            }
        }
        self.prune();
        fresh
    }

    /// `observe` on the nonce of a token.
    pub fn observe_token(&mut self, token: &AuthToken, epoch: u64) -> (fresh: bool)
        ensures
            fresh == old(self).is_new(epoch, token.nonce@),
            observed(*old(self), *final(self), epoch, token.nonce@),
    {
        self.observe(epoch, &token.nonce)
    }

    /// Drops the oldest epochs until at most `KEEP_EPOCHS` are left.
    fn prune(&mut self)
        ensures
            final(self).epochs().subset_of(old(self).epochs()),
            final(self).epochs().len() == kept_count(old(self).epochs()),
            forall|d: u64, k: u64|
                #![trigger old(self).epochs().contains(d), final(self).epochs().contains(k)]
                old(self).epochs().contains(d) && !final(self).epochs().contains(d)
                    && final(self).epochs().contains(k) ==> d < k,
            forall|e: u64, n: Seq<u8>|
                final(self).epochs().contains(e) ==> #[trigger] final(self).seen(e, n) == old(
                    self,
                ).seen(e, n),
    {
        let ghost full = self.window@;
        while self.window.len() > KEEP_EPOCHS
            invariant
                full == old(self).window@,
                full.dom().finite(),
                self.window@.submap_of(full),
                self.window@ == full || self.window@.dom().len() >= KEEP_EPOCHS,
                forall|d: u64, k: u64|
                    #![trigger full.dom().contains(d), self.window@.dom().contains(k)]
                    full.dom().contains(d) && !self.window@.dom().contains(d)
                        && self.window@.dom().contains(k) ==> d < k,
            decreases self.window@.dom().len(),
        {
            let oldest: u64 = self.oldest();
            self.window.remove(&oldest);
        }
        proof {
            vstd::set_lib::lemma_len_subset(self.window@.dom(), full.dom());
        }
    }

    /// The oldest epoch that is kept.
    fn oldest(&self) -> (epoch: u64)
        requires
            self.epochs().len() > 0,
        ensures
            self.epochs().contains(epoch),
            forall|e: u64| self.epochs().contains(e) ==> epoch <= e,
    {
        let mut least: u64 = u64::MAX;
        let ghost mut found: bool = false;
        for k in it: self.window.keys()
            invariant
                forall|j: int| 0 <= j < it.index() ==> least <= *#[trigger] it.seq()[j],
                it.index() > 0 ==> found,
                !found ==> least == u64::MAX,
                found ==> self.window@.dom().contains(least),
                it.seq().unref().to_set() == self.window@.dom(),
        {
            proof {
                assert(it.seq().unref()[it.index()] == *k);
                assert(it.seq().unref().to_set().contains(*k));
            }
            if *k <= least {
                least = *k;
                proof {
                    found = true;
                }
            }
        }
        least
    }

    /// How many epochs are kept.
    pub fn tracked_epochs(&self) -> (n: usize)
        ensures
            n == self.epochs().len(),
    {
        self.window.len()
    }
}

/// How many of these epochs are kept.
pub open spec fn kept_count(epochs: Set<u64>) -> nat {
    if epochs.len() > KEEP_EPOCHS {
        KEEP_EPOCHS as nat
    } else {
        epochs.len()
    }
}

/// What noting a nonce does: its epoch joins the others, the `KEEP_EPOCHS` latest of
/// them stay, and in those that stay exactly the nonce is added. Of the others nothing is
/// kept.
pub open spec fn observed(
    pre: ReplayGuard,
    post: ReplayGuard,
    epoch: u64,
    nonce: Seq<u8>,
) -> bool {
    let epochs = pre.epochs().insert(epoch);
    &&& post.epochs().subset_of(epochs)
    &&& post.epochs().len() == kept_count(epochs)
    &&& forall|d: u64, k: u64|
        #![trigger epochs.contains(d), post.epochs().contains(k)]
        epochs.contains(d) && !post.epochs().contains(d) && post.epochs().contains(k) ==> d < k
    &&& forall|e: u64, n: Seq<u8>|
        n.len() == 12 && post.epochs().contains(e) ==> #[trigger] post.seen(e, n) == (pre.seen(e, n)
            || (e == epoch && n == nonce))
    &&& forall|e: u64, n: Seq<u8>| #[trigger] post.seen(e, n) ==> post.epochs().contains(e)
}

/// The number that stands for a nonce.
fn number_of(nonce: &[u8; 12]) -> (x: u128)
    ensures
        x == nonce_number(nonce@),
{
    let mut x: u128 = 0;
    let mut i: usize = 0;
    while i < 12
        invariant
            i <= 12,
            x == nonce_prefix_number(nonce@, i as nat),
        decreases 12 - i,
    {
        proof {
            lemma_prefix_bound(nonce@, i as nat);
        }
        x = x * 256 + nonce[i] as u128;
        i += 1;
    }
    x
}

proof fn lemma_prefix_bound(nonce: Seq<u8>, n: nat)
    requires
        n <= 12,
    ensures
        nonce_prefix_number(nonce, n) < 0x1_0000_0000_0000_0000_0000_0000,
    decreases n,
{
    reveal_with_fuel(nonce_prefix_number, 13);
}

proof fn lemma_nonce_number(nonce: Seq<u8>)
    requires
        nonce.len() == 12,
    ensures
        nonce_number(nonce) <= u128::MAX,
{
    lemma_prefix_bound(nonce, 12);
}

proof fn lemma_prefix_injective(a: Seq<u8>, b: Seq<u8>, n: nat)
    requires
        nonce_prefix_number(a, n) == nonce_prefix_number(b, n),
    ensures
        forall|i: int| 0 <= i < n ==> a[i] == b[i],
    decreases n,
{
    if n > 0 {
        lemma_prefix_injective(a, b, (n - 1) as nat);
    }
}

proof fn lemma_nonce_number_injective(a: Seq<u8>, b: Seq<u8>)
    requires
        a.len() == b.len(),
        nonce_number(a) == nonce_number(b),
    ensures
        a == b,
{
    lemma_prefix_injective(a, b, a.len());
    assert(a =~= b);
}

impl Default for ReplayGuard {
    fn default() -> (g: Self)
        ensures
            g.epochs() == Set::<u64>::empty(),
            forall|e: u64, n: Seq<u8>| !g.seen(e, n),
    {
        ReplayGuard::new()
    }
}

/// A nonce that was noted is refused from then on, as long as its epoch is kept:
/// right after it was noted, and after any further observation.
pub proof fn law_repeat_is_refused(
    pre: ReplayGuard,
    mid: ReplayGuard,
    post: ReplayGuard,
    epoch: u64,
    nonce: Seq<u8>,
    later_epoch: u64,
    later_nonce: Seq<u8>,
)
    requires
        nonce.len() == 12,
        observed(pre, mid, epoch, nonce),
        observed(mid, post, later_epoch, later_nonce),
    ensures
        mid.epochs().contains(epoch) ==> mid.seen(epoch, nonce),
        mid.epochs().contains(epoch) && post.epochs().contains(epoch) ==> post.seen(epoch, nonce),
        forall|e: u64, n: Seq<u8>|
            n.len() == 12 && mid.seen(e, n) && mid.epochs().contains(e) && post.epochs().contains(e)
                ==> #[trigger] post.seen(e, n),
{
}

/// The nonce of one epoch says nothing about another epoch.
pub proof fn law_epochs_are_independent(
    pre: ReplayGuard,
    post: ReplayGuard,
    epoch: u64,
    nonce: Seq<u8>,
    other: u64,
    n: Seq<u8>,
)
    requires
        n.len() == 12,
        observed(pre, post, epoch, nonce),
        other != epoch,
        post.epochs().contains(other),
    ensures
        post.seen(other, n) == pre.seen(other, n),
{
}

/// At most `KEEP_EPOCHS` epochs are kept, and those are the latest.
pub proof fn law_latest_epochs_kept(
    pre: ReplayGuard,
    post: ReplayGuard,
    epoch: u64,
    nonce: Seq<u8>,
)
    requires
        observed(pre, post, epoch, nonce),
    ensures
        post.epochs().len() <= KEEP_EPOCHS,
        forall|d: u64, k: u64|
            #![trigger pre.epochs().contains(d), post.epochs().contains(k)]
            pre.epochs().contains(d) && !post.epochs().contains(d) && post.epochs().contains(k)
                ==> d < k,
{
    assert forall|d: u64, k: u64|
        #![trigger pre.epochs().contains(d), post.epochs().contains(k)]
        pre.epochs().contains(d) && !post.epochs().contains(d) && post.epochs().contains(
            k,
        ) implies d < k by {
        assert(pre.epochs().insert(epoch).contains(d));
    }
}

/// Three epochs cover the window of acceptance: while nothing beyond the next epoch was
/// noted, an epoch that is noted and still accepted is kept.
pub proof fn law_accepted_epoch_kept(
    pre: ReplayGuard,
    post: ReplayGuard,
    epoch: u64,
    nonce: Seq<u8>,
    now: u64,
    noted: u64,
)
    requires
        observed(pre, post, epoch, nonce),
        epoch <= now + 1,
        forall|e: u64| #[trigger] pre.epochs().contains(e) ==> e <= now + 1,
        noted == epoch || pre.epochs().contains(noted),
        now - 1 <= noted,
    ensures
        post.epochs().contains(noted),
{
    let all = pre.epochs().insert(epoch);
    assert(pre.window@.dom().finite() && post.window@.dom().finite());
    if !post.epochs().contains(noted) {
        assert(all.contains(noted));
        if all.len() <= KEEP_EPOCHS {
            vstd::set_lib::lemma_subset_equality(post.epochs(), all);
        }
        let later = vstd::set_lib::set_int_range(noted + 1, now + 2);
        let kept = post.epochs().map(|e: u64| e as int);
        assert forall|x: int| kept.contains(x) implies #[trigger] later.contains(x) by {
            let e = choose|e: u64| post.epochs().contains(e) && x == e as int;
            assert(all.contains(e));
            assert(noted < e);
        }
        vstd::set_lib::lemma_int_range(noted + 1, now + 2);
        vstd::set_lib::lemma_len_subset(kept, later);
        vstd::set_lib::lemma_map_size(post.epochs(), kept, |e: u64| e as int);
    }
}

/// One use of a guard: a nonce noted in an epoch, while `now` was the present one.
pub struct Observation {
    pub now: u64,
    pub epoch: u64,
    pub nonce: Seq<u8>,
}

/// Whether a guard that had seen nothing became each of these guards in turn by these
/// observations.
pub open spec fn is_run(guards: Seq<ReplayGuard>, obs: Seq<Observation>) -> bool {
    &&& guards.len() == obs.len() + 1
    &&& guards[0].epochs() == Set::<u64>::empty()
    &&& forall|e: u64, n: Seq<u8>| !guards[0].seen(e, n)
    &&& forall|i: int|
        0 <= i < obs.len() ==> {
            let o = #[trigger] obs[i];
            observed(guards[i], guards[i + 1], o.epoch, o.nonce) && o.nonce.len() == 12
        }
}

/// Whether this was a run in which the clock did not go back and what was noted was
/// accepted at the time.
pub open spec fn is_history(guards: Seq<ReplayGuard>, obs: Seq<Observation>) -> bool {
    &&& is_run(guards, obs)
    &&& forall|i: int|
        0 <= i < obs.len() ==> {
            let o = #[trigger] obs[i];
            o.now - 1 <= o.epoch <= o.now + 1
        }
    &&& forall|i: int, j: int| 0 <= i <= j < obs.len() ==> obs[i].now <= obs[j].now
}

/// Whether a nonce was noted in an epoch.
pub open spec fn noted(obs: Seq<Observation>, epoch: u64, nonce: Seq<u8>) -> bool {
    exists|i: int|
        0 <= i < obs.len() && (#[trigger] obs[i]).epoch == epoch && obs[i].nonce == nonce
}

/// The epochs in which something was noted.
pub open spec fn noted_epochs(obs: Seq<Observation>) -> Set<u64> {
    obs.map_values(|o: Observation| o.epoch).to_set()
}

/// Those of them that are later than `epoch`.
pub open spec fn later_epochs(obs: Seq<Observation>, epoch: u64) -> Set<u64> {
    noted_epochs(obs).filter(|e: u64| e > epoch)
}

/// Whether these are the `KEEP_EPOCHS` latest epochs among all.
spec fn are_latest(kept: Set<u64>, all: Set<u64>) -> bool {
    &&& kept.subset_of(all)
    &&& kept.len() == kept_count(all)
    &&& forall|d: u64, k: u64|
        #![trigger all.contains(d), kept.contains(k)]
        all.contains(d) && !kept.contains(d) && kept.contains(k) ==> d < k
}

/// The latest of all epochs and one more are the latest among the latest so far and that
/// one. An epoch that was dropped does not come back.
proof fn lemma_latest_step(kept: Set<u64>, all: Set<u64>, epoch: u64, after: Set<u64>)
    requires
        all.finite(),
        kept.finite(),
        after.finite(),
        are_latest(kept, all),
        are_latest(after, kept.insert(epoch)),
    ensures
        are_latest(after, all.insert(epoch)),
        all.contains(epoch) && !kept.contains(epoch) ==> !after.contains(epoch),
{
    let joined = kept.insert(epoch);
    if all.len() <= KEEP_EPOCHS {
        vstd::set_lib::lemma_subset_equality(kept, all);
    } else {
        vstd::set_lib::lemma_len_subset(kept, joined);
        vstd::set_lib::lemma_len_subset(all, all.insert(epoch));
        if after.contains(epoch) && !kept.contains(epoch) {
            if kept.subset_of(after) {
                vstd::set_lib::lemma_len_subset(joined, after);
            }
            let w = choose|w: u64| kept.contains(w) && !after.contains(w);
            assert(joined.contains(w));
            assert(w < epoch);
            assert forall|d: u64| all.contains(d) && !kept.contains(d) implies d < epoch && d
                != epoch by {
                assert(d < w);
            }
        }
    }
    assert forall|d: u64, k: u64|
        #![trigger all.insert(epoch).contains(d), after.contains(k)]
        all.insert(epoch).contains(d) && !after.contains(d) && after.contains(k) implies d < k by {
        if joined.contains(d) {
        } else {
            assert(all.contains(d));
            assert(joined.contains(k));
        }
    }
}

/// An epoch is among the latest exactly if fewer than `KEEP_EPOCHS` are later.
proof fn lemma_latest_by_count(kept: Set<u64>, all: Set<u64>, epoch: u64)
    requires
        all.finite(),
        kept.finite(),
        are_latest(kept, all),
    ensures
        kept.contains(epoch) <==> all.contains(epoch) && all.filter(|e: u64| e > epoch).len()
            < KEEP_EPOCHS,
{
    let later = all.filter(|e: u64| e > epoch);
    if all.contains(epoch) {
        if kept.contains(epoch) {
            assert forall|e: u64| later.contains(e) implies #[trigger] kept.remove(epoch).contains(
                e,
            ) by {
                assert(all.contains(e));
            }
            vstd::set_lib::lemma_len_subset(later, kept.remove(epoch));
        } else {
            if all.len() <= KEEP_EPOCHS {
                vstd::set_lib::lemma_subset_equality(kept, all);
            }
            vstd::set_lib::lemma_len_subset(kept, later);
        }
    }
}

/// What a guard keeps after the first `j` observations.
proof fn lemma_run_keeps(guards: Seq<ReplayGuard>, obs: Seq<Observation>, j: int)
    requires
        is_run(guards, obs),
        0 <= j <= obs.len(),
    ensures
        guards[j].epochs().finite(),
        are_latest(guards[j].epochs(), noted_epochs(obs.take(j))),
        forall|e: u64, n: Seq<u8>|
            n.len() == 12 ==> #[trigger] guards[j].seen(e, n) == (guards[j].epochs().contains(e)
                && noted(obs.take(j), e, n)),
    decreases j,
{
    let kept = guards[j].epochs();
    assert(guards[j].window@.dom().finite());
    if j == 0 {
        assert(noted_epochs(obs.take(0)) =~= Set::<u64>::empty());
    } else {
        lemma_run_keeps(guards, obs, j - 1);
        let o = obs[j - 1];
        let before = obs.take(j - 1);
        let now = obs.take(j);
        let all = noted_epochs(before);
        let pre = guards[j - 1].epochs();
        assert(now =~= before.push(o));
        let epochs = before.map_values(|o: Observation| o.epoch);
        assert(now.map_values(|o: Observation| o.epoch) =~= epochs.push(o.epoch));
        assert forall|e: u64| #[trigger] epochs.push(o.epoch).to_set().contains(e) == all.insert(
            o.epoch,
        ).contains(e) by {
            if all.contains(e) {
                let i = choose|i: int| 0 <= i < epochs.len() && epochs[i] == e;
                assert(epochs.push(o.epoch)[i] == e);
            }
            assert(epochs.push(o.epoch)[epochs.len() as int] == o.epoch);
        }
        assert(noted_epochs(now) =~= all.insert(o.epoch));
        lemma_latest_step(pre, all, o.epoch, kept);
        assert forall|e: u64, n: Seq<u8>| n.len() == 12 implies #[trigger] guards[j].seen(e, n) == (
        kept.contains(e) && noted(now, e, n)) by {
            assert(guards[j - 1].seen(e, n) == (pre.contains(e) && noted(before, e, n)));
            if noted(before, e, n) {
                let i = choose|i: int|
                    0 <= i < before.len() && (#[trigger] before[i]).epoch == e && before[i].nonce
                        == n;
                assert(now[i].epoch == e && now[i].nonce == n);
                assert(epochs[i] == e);
                assert(all.contains(e));
            }
            if noted(now, e, n) {
                let i = choose|i: int|
                    0 <= i < now.len() && (#[trigger] now[i]).epoch == e && now[i].nonce == n;
                if i < j - 1 {
                    assert(before[i].epoch == e && before[i].nonce == n);
                }
            }
            assert(now[j - 1] == o);
        }
    }
}

/// What a guard has seen follows from all that was noted: a nonce is known in an epoch
/// exactly if it was noted there and something was noted in fewer than `KEEP_EPOCHS`
/// later epochs. In every other case it counts as new.
pub proof fn law_known_while_kept(
    guards: Seq<ReplayGuard>,
    obs: Seq<Observation>,
    j: int,
    epoch: u64,
    nonce: Seq<u8>,
)
    requires
        is_run(guards, obs),
        0 <= j <= obs.len(),
        nonce.len() == 12,
    ensures
        guards[j].seen(epoch, nonce) <==> noted(obs.take(j), epoch, nonce) && later_epochs(
            obs.take(j),
            epoch,
        ).len() < KEEP_EPOCHS,
{
    let before = obs.take(j);
    lemma_run_keeps(guards, obs, j);
    lemma_latest_by_count(guards[j].epochs(), noted_epochs(before), epoch);
    if noted(before, epoch, nonce) {
        let i = choose|i: int|
            0 <= i < before.len() && (#[trigger] before[i]).epoch == epoch && before[i].nonce
                == nonce;
        assert(before.map_values(|o: Observation| o.epoch)[i] == epoch);
    }
}

/// A guard keeps as many epochs as something was noted in, at most `KEEP_EPOCHS`.
pub proof fn law_epochs_tracked(guards: Seq<ReplayGuard>, obs: Seq<Observation>, j: int)
    requires
        is_run(guards, obs),
        0 <= j <= obs.len(),
    ensures
        guards[j].epochs().len() == kept_count(noted_epochs(obs.take(j))),
{
    lemma_run_keeps(guards, obs, j);
}

/// Nothing beyond the next epoch was ever noted.
proof fn lemma_history_bound(guards: Seq<ReplayGuard>, obs: Seq<Observation>, j: int, now: u64)
    requires
        is_history(guards, obs),
        0 <= j <= obs.len(),
        j > 0 ==> obs[j - 1].now <= now,
    ensures
        forall|e: u64| #[trigger] guards[j].epochs().contains(e) ==> e <= now + 1,
    decreases j,
{
    if j > 0 {
        let o = obs[j - 1];
        lemma_history_bound(guards, obs, j - 1, o.now);
        assert forall|e: u64| #[trigger] guards[j].epochs().contains(e) implies e <= now + 1 by {
            assert(guards[j - 1].epochs().insert(o.epoch).contains(e));
        }
    }
}

/// Whatever a guard notes in between, a nonce that it has noted is known for as long as
/// its epoch is accepted: a repetition is never taken for new.
pub proof fn law_replay_is_refused(
    guards: Seq<ReplayGuard>,
    obs: Seq<Observation>,
    i: int,
    j: int,
    now: u64,
)
    requires
        is_history(guards, obs),
        0 <= i < j <= obs.len(),
        obs[j - 1].now <= now <= obs[i].epoch + 1,
    ensures
        guards[j].seen(obs[i].epoch, obs[i].nonce),
    decreases j,
{
    let o = obs[j - 1];
    let noted = obs[i].epoch;
    lemma_history_bound(guards, obs, j - 1, o.now);
    if i < j - 1 {
        assert(obs[j - 2].now <= o.now);
        law_replay_is_refused(guards, obs, i, j - 1, o.now);
    }
    law_accepted_epoch_kept(guards[j - 1], guards[j], o.epoch, o.nonce, o.now, noted);
    assert(obs[i].nonce.len() == 12);
    assert(guards[j].seen(noted, obs[i].nonce) == (guards[j - 1].seen(noted, obs[i].nonce) || (
    noted == o.epoch && obs[i].nonce == o.nonce)));
}

/// Three epochs are kept, the one before, the present one and the next; fewer while there are
/// fewer.
pub proof fn law_three_epochs_are_kept(epochs: Set<u64>)
    ensures
        KEEP_EPOCHS == 3,
        epochs.len() <= 3 ==> kept_count(epochs) == epochs.len(),
        epochs.len() > 3 ==> kept_count(epochs) == 3,
{
}

/// What noting a nonce leaves, told by its result: the same nonce in the same epoch is known
/// right after, unless three later epochs are kept; nothing that was known in an epoch that
/// stays is forgotten, and nothing else becomes known.
pub proof fn law_noting_adds_one(
    pre: ReplayGuard,
    post: ReplayGuard,
    epoch: u64,
    nonce: Seq<u8>,
    e: u64,
    n: Seq<u8>,
)
    requires
        observed(pre, post, epoch, nonce),
        nonce.len() == 12,
        n.len() == 12,
    ensures
        post.epochs().contains(epoch) ==> post.seen(epoch, nonce),
        post.epochs().contains(e) && pre.seen(e, n) ==> post.seen(e, n),
        post.seen(e, n) ==> pre.seen(e, n) || e == epoch && n == nonce,
        !post.epochs().contains(e) ==> !post.seen(e, n),
{
}

/// What a guard answers follows from all that was noted: a nonce is new in an epoch exactly
/// unless it was noted there and something was noted in fewer than three later epochs.
pub proof fn law_new_unless_noted(
    guards: Seq<ReplayGuard>,
    obs: Seq<Observation>,
    j: int,
    epoch: u64,
    nonce: Seq<u8>,
)
    requires
        is_run(guards, obs),
        0 <= j <= obs.len(),
        nonce.len() == 12,
    ensures
        guards[j].is_new(epoch, nonce) <==> !(noted(obs.take(j), epoch, nonce) && later_epochs(
            obs.take(j),
            epoch,
        ).len() < 3),
{
    law_known_while_kept(guards, obs, j, epoch, nonce);
}

} // verus!
