//! The requesting DNA's own append-only log of capability claims, capability
//! records, the links from each claim to the capability it opens, and the
//! tombstones that mark records deleted. A record's address is its position
//! in the log.
use crate::types::{AvailableCapability, CapClaim, CapabilityModel, ClaimModel};
use vstd::prelude::*;

verus! {

/// One record of the log.
pub enum LogRecord {
    Claim(CapClaim),
    Capability(AvailableCapability),
    Link { base: usize, target: usize },
    /// Marks the record at `target` as deleted.
    Tombstone { target: usize },
}

pub enum RecordModel {
    Claim(ClaimModel),
    Capability(CapabilityModel),
    Link { base: int, target: int },
    Tombstone { target: int },
}

impl View for LogRecord {
    type V = RecordModel;

    open spec fn view(&self) -> RecordModel {
        match self {
            LogRecord::Claim(c) => RecordModel::Claim(c@),
            LogRecord::Capability(c) => RecordModel::Capability(c@),
            LogRecord::Link { base, target } => RecordModel::Link {
                base: *base as int,
                target: *target as int,
            },
            LogRecord::Tombstone { target } => RecordModel::Tombstone { target: *target as int },
        }
    }
}

/// Every link and every tombstone points back at records written before it.
pub open spec fn log_wf(log: Seq<RecordModel>) -> bool {
    forall|i: int|
        #![trigger log[i]]
        0 <= i < log.len() ==> (log[i] matches RecordModel::Link { base, target } ==> 0 <= base < i
            && 0 <= target < i) && (log[i] matches RecordModel::Tombstone { target } ==> 0 <= target
            < i)
}

/// Whether some tombstone in the log marks the record at `i` as deleted.
pub open spec fn is_deleted(log: Seq<RecordModel>, i: int) -> bool {
    exists|p: int| 0 <= p < log.len() && #[trigger] log[p] == RecordModel::Tombstone { target: i }
}

/// Whether the record at `i` is a claim under `tag` that is not deleted.
pub open spec fn is_live_claim(log: Seq<RecordModel>, i: int, tag: Seq<char>) -> bool {
    0 <= i < log.len() && (log[i] matches RecordModel::Claim(c) && c.tag == tag) && !is_deleted(log, i)
}

/// Whether the record at `i` is a link from `base` that is not deleted.
pub open spec fn is_live_link(log: Seq<RecordModel>, i: int, base: int) -> bool {
    0 <= i < log.len() && (log[i] matches RecordModel::Link { base: b, target } && b == base)
        && !is_deleted(log, i)
}

/// Address of the newest live claim under `tag` among the first `n` records.
pub open spec fn latest_claim_upto(log: Seq<RecordModel>, n: nat, tag: Seq<char>) -> Option<int>
    decreases n,
{
    if n == 0 {
        None
    } else if is_live_claim(log, n - 1, tag) {
        Some(n - 1)
    } else {
        latest_claim_upto(log, (n - 1) as nat, tag)
    }
}

/// Address of the newest live claim filed under `tag`.
pub open spec fn latest_claim(log: Seq<RecordModel>, tag: Seq<char>) -> Option<int> {
    latest_claim_upto(log, log.len(), tag)
}

/// Target of the oldest live link from `base` among the first `n` records.
pub open spec fn first_link_upto(log: Seq<RecordModel>, n: nat, base: int) -> Option<int>
    decreases n,
{
    if n == 0 {
        None
    } else {
        match first_link_upto(log, (n - 1) as nat, base) {
            Some(t) => Some(t),
            None => if is_live_link(log, n - 1, base) {
                Some(log[n - 1]->Link_target)
            } else {
                None
            },
        }
    }
}

/// Target of the oldest live link from the record at `base`.
pub open spec fn first_link(log: Seq<RecordModel>, base: int) -> Option<int> {
    first_link_upto(log, log.len(), base)
}

pub proof fn lemma_first_link_upto_stable(log: Seq<RecordModel>, base: int, m: nat, n: nat)
    requires
        m <= n,
        first_link_upto(log, m, base) is Some,
    ensures
        first_link_upto(log, n, base) == first_link_upto(log, m, base),
    decreases n,
{
    if n > m {
        lemma_first_link_upto_stable(log, base, m, (n - 1) as nat);
    }
}

/// Without a live link from `base` among the first `n` records, none is found there.
pub proof fn lemma_no_live_link_upto(log: Seq<RecordModel>, base: int, n: nat)
    requires
        forall|i: int| 0 <= i < n ==> !is_live_link(log, i, base),
    ensures
        first_link_upto(log, n, base) is None,
    decreases n,
{
    if n > 0 {
        lemma_no_live_link_upto(log, base, (n - 1) as nat);
    }
}

/// Whether superseding the claims under `tag` deletes the record at `i`: a
/// live claim under the tag, or a live link from a claim under the tag.
pub open spec fn to_retire(log: Seq<RecordModel>, tag: Seq<char>, i: int) -> bool {
    is_live_claim(log, i, tag) || (0 <= i < log.len() && !is_deleted(log, i) && (log[i] matches RecordModel::Link {
        base,
        target,
    } && 0 <= base < log.len() && (log[base] matches RecordModel::Claim(c) && c.tag == tag)))
}

/// Addresses, in order, among the first `n` records that superseding the
/// claims under `tag` deletes.
pub open spec fn retire_targets(log: Seq<RecordModel>, tag: Seq<char>, n: nat) -> Seq<int>
    decreases n,
{
    if n == 0 {
        Seq::empty()
    } else if to_retire(log, tag, n - 1) {
        retire_targets(log, tag, (n - 1) as nat).push(n - 1)
    } else {
        retire_targets(log, tag, (n - 1) as nat)
    }
}

pub open spec fn tombstones(targets: Seq<int>) -> Seq<RecordModel> {
    targets.map_values(|t: int| RecordModel::Tombstone { target: t })
}

/// The log after every live claim under `tag`, and every live link from a
/// claim under `tag`, is marked deleted.
pub open spec fn supersede_log(log: Seq<RecordModel>, tag: Seq<char>) -> Seq<RecordModel> {
    log + tombstones(retire_targets(log, tag, log.len()))
}

pub proof fn lemma_retire_targets(log: Seq<RecordModel>, tag: Seq<char>, n: nat)
    ensures
        forall|k: int|
            0 <= k < retire_targets(log, tag, n).len() ==> 0 <= #[trigger] retire_targets(
                log,
                tag,
                n,
            )[k] < n,
        forall|i: int|
            0 <= i < n && to_retire(log, tag, i) ==> retire_targets(log, tag, n).contains(i),
    decreases n,
{
    if n > 0 {
        lemma_retire_targets(log, tag, (n - 1) as nat);
        let prev = retire_targets(log, tag, (n - 1) as nat);
        if to_retire(log, tag, n - 1) {
            let cur = prev.push(n - 1);
            assert forall|k: int| 0 <= k < cur.len() implies 0 <= #[trigger] cur[k] < n by {
                if k < prev.len() {
                    assert(cur[k] == prev[k]);
                }
            }
            assert forall|i: int| 0 <= i < n && to_retire(log, tag, i) implies cur.contains(i) by {
                if i < n - 1 {
                    assert(prev.contains(i));
                    let k = choose|k: int| 0 <= k < prev.len() && prev[k] == i;
                    assert(cur[k] == i);
                } else {
                    assert(cur[cur.len() - 1] == i);
                }
            }
        }
    }
}

/// After superseding, no record under `tag` is live any more, and a
/// well-formed log stays well formed.
pub proof fn lemma_supersede_log(log: Seq<RecordModel>, tag: Seq<char>)
    requires
        log_wf(log),
    ensures
        log_wf(supersede_log(log, tag)),
        supersede_log(log, tag).subrange(0, log.len() as int) == log,
        forall|i: int|
            0 <= i < supersede_log(log, tag).len() ==> !is_live_claim(
                supersede_log(log, tag),
                i,
                tag,
            ),
        forall|i: int|
            0 <= i < log.len() && (#[trigger] log[i] matches RecordModel::Link { base, target } && 0
                <= base < log.len() && (log[base] matches RecordModel::Claim(c) && c.tag == tag))
                ==> is_deleted(supersede_log(log, tag), i),
        forall|p: int|
            log.len() <= p < supersede_log(log, tag).len() ==> (#[trigger] supersede_log(log, tag)[p] matches RecordModel::Tombstone {
                target,
            } && 0 <= target < log.len()),
        forall|i: int| 0 <= i < log.len() && is_deleted(log, i) ==> is_deleted(supersede_log(log, tag), i),
{
    let targets = retire_targets(log, tag, log.len());
    let s = supersede_log(log, tag);
    lemma_retire_targets(log, tag, log.len());
    assert(s.subrange(0, log.len() as int) =~= log);
    assert forall|p: int| log.len() <= p < s.len() implies (#[trigger] s[p] matches RecordModel::Tombstone {
        target,
    } && 0 <= target < log.len()) by {
        assert(s[p] == RecordModel::Tombstone { target: targets[p - log.len()] });
    }
    assert forall|i: int| 0 <= i < log.len() && is_deleted(log, i) implies is_deleted(s, i) by {
        let p = choose|p: int| 0 <= p < log.len() && #[trigger] log[p] == RecordModel::Tombstone { target: i };
        assert(s[p] == log[p]);
    }
    assert forall|i: int| 0 <= i < log.len() && to_retire(log, tag, i) implies is_deleted(s, i) by {
        assert(targets.contains(i));
        let k = choose|k: int| 0 <= k < targets.len() && targets[k] == i;
        assert(s[log.len() + k] == RecordModel::Tombstone { target: i });
    }
    assert forall|i: int| 0 <= i < s.len() implies !is_live_claim(s, i, tag) by {
        if i < log.len() {
            assert(s[i] == log[i]);
            if is_live_claim(log, i, tag) {
                assert(to_retire(log, tag, i));
            }
        }
    }
    assert forall|i: int|
        0 <= i < log.len() && (#[trigger] log[i] matches RecordModel::Link { base, target } && 0
            <= base < log.len() && (log[base] matches RecordModel::Claim(c) && c.tag == tag))
            implies is_deleted(s, i) by {
        if !is_deleted(log, i) {
            assert(to_retire(log, tag, i));
        }
    }
    assert forall|i: int| 0 <= i < s.len() implies (#[trigger] s[i] matches RecordModel::Link { base, target }
        ==> 0 <= base < i && 0 <= target < i) && (s[i] matches RecordModel::Tombstone { target } ==> 0
        <= target < i) by {
        if i < log.len() {
            assert(s[i] == log[i]);
        }
    }
}

/// The log of capability claims and the records they link to.
pub struct CapabilityStore {
    records: Vec<LogRecord>,
}

impl View for CapabilityStore {
    type V = Seq<RecordModel>;

    closed spec fn view(&self) -> Seq<RecordModel> {
        self.records@.map_values(|r: LogRecord| r@)
    }
}

impl CapabilityStore {
    /// An empty log.
    pub fn new() -> (r: Self)
        ensures
            r@ == Seq::<RecordModel>::empty(),
            log_wf(r@),
    {
        let r = CapabilityStore { records: Vec::new() };
        assert(r@ =~= Seq::<RecordModel>::empty());
        r
    }

    /// Number of records in the log.
    pub fn len(&self) -> (r: usize)
        ensures
            r == self@.len(),
    {
        self.records.len()
    }

    /// The record at address `i`.
    pub fn record(&self, i: usize) -> (r: &LogRecord)
        requires
            i < self@.len(),
        ensures
            r@ == self@[i as int],
    {
        &self.records[i]
    }

    /// Appends a claim and returns its address.
    pub fn put_claim(&mut self, claim: CapClaim) -> (a: usize)
        ensures
            a == old(self)@.len(),
            final(self)@ == old(self)@.push(RecordModel::Claim(claim@)),
            log_wf(old(self)@) ==> log_wf(final(self)@),
    {
        let a = self.records.len();
        let ghost c = claim@;
        self.records.push(LogRecord::Claim(claim));
        assert(self@ =~= old(self)@.push(RecordModel::Claim(c)));
        a
    }

    /// Appends a capability record and returns its address.
    pub fn put_capability(&mut self, capability: AvailableCapability) -> (a: usize)
        ensures
            a == old(self)@.len(),
            final(self)@ == old(self)@.push(RecordModel::Capability(capability@)),
            log_wf(old(self)@) ==> log_wf(final(self)@),
    {
        let a = self.records.len();
        let ghost c = capability@;
        self.records.push(LogRecord::Capability(capability));
        assert(self@ =~= old(self)@.push(RecordModel::Capability(c)));
        a
    }

    /// Appends a link between two records already in the log.
    pub fn link(&mut self, base: usize, target: usize)
        requires
            base < old(self)@.len(),
            target < old(self)@.len(),
        ensures
            final(self)@ == old(self)@.push(
                RecordModel::Link { base: base as int, target: target as int },
            ),
            log_wf(old(self)@) ==> log_wf(final(self)@),
    {
        self.records.push(LogRecord::Link { base, target });
        assert(self@ =~= old(self)@.push(
            RecordModel::Link { base: base as int, target: target as int },
        ));
    }

    /// Appends a tombstone that marks the record at `target` as deleted.
    pub fn tombstone(&mut self, target: usize)
        requires
            target < old(self)@.len(),
        ensures
            final(self)@ == old(self)@.push(RecordModel::Tombstone { target: target as int }),
            log_wf(old(self)@) ==> log_wf(final(self)@),
    {
        self.records.push(LogRecord::Tombstone { target });
        assert(self@ =~= old(self)@.push(RecordModel::Tombstone { target: target as int }));
    }

    /// Whether a tombstone marks the record at `i` as deleted.
    pub fn is_deleted(&self, i: usize) -> (r: bool)
        ensures
            r == is_deleted(self@, i as int),
    {
        let mut p: usize = 0;
        while p < self.records.len()
            invariant
                p <= self.records@.len(),
                forall|q: int| 0 <= q < p ==> self@[q] != (RecordModel::Tombstone { target: i as int }),
            decreases self.records.len() - p,
        {
            assert(self@[p as int] == self.records@[p as int]@);
            if let LogRecord::Tombstone { target } = &self.records[p] {
                if *target == i {
                    return true;
                }
            }
            p = p + 1;
        }
        false
    }

    fn is_claim_under(&self, i: usize, tag: &String) -> (r: bool)
        requires
            i < self@.len(),
        ensures
            r == (self@[i as int] matches RecordModel::Claim(c) && c.tag == tag@),
    {
        assert(self@[i as int] == self.records@[i as int]@);
        match &self.records[i] {
            LogRecord::Claim(c) => c.tag == *tag,
            _ => false,
        }
    }

    /// Address of the newest live claim filed under `tag`, if any.
    pub fn find_claim_by_tag(&self, tag: &String) -> (r: Option<usize>)
        ensures
            r matches Some(a) ==> latest_claim(self@, tag@) == Some(a as int),
            r is None ==> latest_claim(self@, tag@) is None,
    {
        let mut i: usize = self.records.len();
        while i > 0
            invariant
                i <= self@.len(),
                latest_claim(self@, tag@) == latest_claim_upto(self@, i as nat, tag@),
            decreases i,
        {
            if self.is_claim_under(i - 1, tag) && !self.is_deleted(i - 1) {
                return Some(i - 1);
            }
            i = i - 1;
        }
        None
    }

    /// Target of the oldest live link from the record at `base`, if any.
    pub fn find_link_target(&self, base: usize) -> (r: Option<usize>)
        ensures
            r matches Some(t) ==> first_link(self@, base as int) == Some(t as int),
            r is None ==> first_link(self@, base as int) is None,
    {
        let mut i: usize = 0;
        while i < self.records.len()
            invariant
                i <= self@.len(),
                first_link_upto(self@, i as nat, base as int) is None,
            decreases self.records.len() - i,
        {
            assert(self@[i as int] == self.records@[i as int]@);
            if let LogRecord::Link { base: b, target } = &self.records[i] {
                if *b == base && !self.is_deleted(i) {
                    proof {
                        lemma_first_link_upto_stable(self@, base as int, (i + 1) as nat, self@.len());
                    }
                    return Some(*target);
                }
            }
            i = i + 1;
        }
        None
    }

    /// Marks deleted every live claim under `tag`, and every live link from a
    /// claim under `tag`, so that a new claim supersedes them.
    pub fn supersede(&mut self, tag: &String)
        ensures
            final(self)@ == supersede_log(old(self)@, tag@),
            log_wf(old(self)@) ==> log_wf(final(self)@),
    {
        let ghost log = self@;
        let n = self.records.len();
        let mut targets: Vec<usize> = Vec::new();
        let mut i: usize = 0;
        while i < n
            invariant
                n == log.len(),
                self@ == log,
                i <= n,
                targets@.map_values(|t: usize| t as int) == retire_targets(log, tag@, i as nat),
            decreases n - i,
        {
            let live = !self.is_deleted(i);
            let mut retire = false;
            if live {
                assert(self@[i as int] == self.records@[i as int]@);
                match &self.records[i] {
                    LogRecord::Claim(c) => {
                        retire = c.tag == *tag;
                    },
                    LogRecord::Link { base, target: _ } => {
                        if *base < n {
                            retire = self.is_claim_under(*base, tag);
                        }
                    },
                    _ => {},
                }
            }
            assert(retire == to_retire(log, tag@, i as int));
            if retire {
                targets.push(i);
            }
            assert(targets@.map_values(|t: usize| t as int) =~= retire_targets(
                log,
                tag@,
                (i + 1) as nat,
            ));
            i = i + 1;
        }
        proof {
            lemma_retire_targets(log, tag@, n as nat);
        }
        let ghost all = retire_targets(log, tag@, n as nat);
        let mut k: usize = 0;
        assert(tombstones(all.subrange(0, 0)) =~= Seq::<RecordModel>::empty());
        assert(log + tombstones(all.subrange(0, 0)) =~= log);
        while k < targets.len()
            invariant
                k <= targets@.len(),
                n == log.len(),
                targets@.map_values(|t: usize| t as int) == all,
                forall|j: int| 0 <= j < all.len() ==> 0 <= #[trigger] all[j] < n,
                self@ == log + tombstones(all.subrange(0, k as int)),
                log_wf(log) ==> log_wf(self@),
            decreases targets.len() - k,
        {
            let t = targets[k];
            assert(all[k as int] == t as int);
            self.tombstone(t);
            assert(tombstones(all.subrange(0, k + 1)) =~= tombstones(all.subrange(0, k as int)).push(
                RecordModel::Tombstone { target: t as int },
            ));
            k = k + 1;
        }
        assert(all.subrange(0, k as int) =~= all);
    }
}

} // verus!
