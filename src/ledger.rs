use vstd::prelude::*;

use crate::types::{Error, LedgerFault, ScoringAction};

verus! {

/// Identifies one applied score change: who acted, on what, and how.
#[derive(Clone, Copy, Debug, PartialEq, Eq, Structural)]
pub struct LedgerKey {
    pub actor: u64,
    pub target: u64,
    pub action: ScoringAction,
}

/// One applied change and the delta it actually made.
#[derive(Clone, Copy, Debug, PartialEq, Eq, Structural)]
pub struct ScoreRecord {
    pub key: LedgerKey,
    pub diff: i16,
}

/// The records of applied score changes, at most one per key.
#[derive(Debug)]
pub struct ScoreLedger {
    pub records: Vec<ScoreRecord>,
}

/// The map that a sequence of records describes; a later record wins.
pub open spec fn map_of(s: Seq<ScoreRecord>) -> Map<LedgerKey, i16>
    decreases s.len(),
{
    if s.len() == 0 {
        Map::empty()
    } else {
        map_of(s.drop_last()).insert(s.last().key, s.last().diff)
    }
}

pub open spec fn keys_unique(s: Seq<ScoreRecord>) -> bool {
    forall|i: int, j: int| 0 <= i < j < s.len() ==> s[i].key != s[j].key
}

/// `x` forced into `[lo, hi]`.
pub open spec fn clamp(x: int, lo: int, hi: int) -> int {
    if x < lo {
        lo
    } else if x > hi {
        hi
    } else {
        x
    }
}

/// Applying weight `w` under key `k` to a value `v` kept within `[lo, hi]`:
/// refused if `k` is already recorded; otherwise the value moves by `w`,
/// stopping at the bounds, and the ledger records the delta actually made.
pub open spec fn ledger_apply(m: Map<LedgerKey, i16>, v: int, lo: int, hi: int, k: LedgerKey, w: i16)
    -> Result<(Map<LedgerKey, i16>, int), Error> {
    if m.contains_key(k) {
        Err(Error::LedgerConflict(LedgerFault::AlreadyApplied))
    } else {
        let v2 = clamp(v + w, lo, hi);
        Ok((m.insert(k, (v2 - v) as i16), v2))
    }
}

/// Reversing the change recorded under `k`: refused if there is none;
/// otherwise the record goes and its delta is taken back, within `[lo, hi]`.
pub open spec fn ledger_reverse(m: Map<LedgerKey, i16>, v: int, lo: int, hi: int, k: LedgerKey)
    -> Result<(Map<LedgerKey, i16>, int), Error> {
    if !m.contains_key(k) {
        Err(Error::LedgerConflict(LedgerFault::NotApplied))
    } else {
        Ok((m.remove(k), clamp(v - m[k], lo, hi)))
    }
}

/// Replacing the change under `ko` by one of weight `w` under `kn`: the
/// first is reversed, then the second applied; refused if either step is.
pub open spec fn ledger_swap(m: Map<LedgerKey, i16>, v: int, lo: int, hi: int, ko: LedgerKey, kn: LedgerKey, w: i16)
    -> Result<(Map<LedgerKey, i16>, int), Error> {
    match ledger_reverse(m, v, lo, hi, ko) {
        Err(e) => Err(e),
        Ok((m1, v1)) => ledger_apply(m1, v1, lo, hi, kn, w),
    }
}

/// Applying a change that counts once per key: where `k` is recorded
/// already nothing moves, otherwise it is applied as `ledger_apply` says.
pub open spec fn scored_once(m: Map<LedgerKey, i16>, v: int, m2: Map<LedgerKey, i16>, v2: int, lo: int, hi: int,
    k: LedgerKey, w: i16) -> bool {
    if m.contains_key(k) {
        m2 == m && v2 == v
    } else {
        ledger_apply(m, v, lo, hi, k, w) == Ok::<(Map<LedgerKey, i16>, int), Error>((m2, v2))
    }
}

proof fn lemma_map_of_contains(s: Seq<ScoreRecord>, k: LedgerKey)
    ensures
        map_of(s).contains_key(k) <==> exists|j: int| 0 <= j < s.len() && s[j].key == k,
    decreases s.len(),
{
    if s.len() > 0 {
        lemma_map_of_contains(s.drop_last(), k);
        if map_of(s).contains_key(k) && s.last().key != k {
            let j = choose|j: int| 0 <= j < s.len() - 1 && s.drop_last()[j].key == k;
            assert(s[j].key == k);
        }
        if exists|j: int| 0 <= j < s.len() && s[j].key == k {
            let j = choose|j: int| 0 <= j < s.len() && s[j].key == k;
            if j < s.len() - 1 {
                assert(s.drop_last()[j].key == k);
            }
        }
    }
}

proof fn lemma_map_of_value(s: Seq<ScoreRecord>, j: int)
    requires
        keys_unique(s),
        0 <= j < s.len(),
    ensures
        map_of(s).contains_key(s[j].key),
        map_of(s)[s[j].key] == s[j].diff,
    decreases s.len(),
{
    if j < s.len() - 1 {
        lemma_map_of_value(s.drop_last(), j);
    }
}

proof fn lemma_map_of_remove(s: Seq<ScoreRecord>, j: int)
    requires
        keys_unique(s),
        0 <= j < s.len(),
    ensures
        map_of(s.remove(j)) == map_of(s).remove(s[j].key),
        keys_unique(s.remove(j)),
    decreases s.len(),
{
    let r = s.remove(j);
    if j == s.len() - 1 {
        assert(r =~= s.drop_last());
        lemma_map_of_contains(s.drop_last(), s[j].key);
        assert(!map_of(s.drop_last()).contains_key(s[j].key));
        assert(map_of(r) =~= map_of(s).remove(s[j].key));
    } else {
        let d = s.drop_last();
        lemma_map_of_remove(d, j);
        assert(r.drop_last() =~= d.remove(j));
        assert(r.last() == s.last());
        assert(map_of(r) =~= map_of(s).remove(s[j].key));
    }
}

impl ScoreLedger {
    pub open spec fn wf(&self) -> bool {
        keys_unique(self.records@)
    }

    pub open spec fn view(&self) -> Map<LedgerKey, i16> {
        map_of(self.records@)
    }

    pub fn new() -> (r: ScoreLedger)
        ensures
            r.wf(),
            r.view() == Map::<LedgerKey, i16>::empty(),
    {
        ScoreLedger { records: Vec::new() }
    }

    /// The position of the record under `k`, if any.
    fn position(&self, k: LedgerKey) -> (r: Option<usize>)
        requires
            self.wf(),
        ensures
            match r {
                Some(j) => j < self.records@.len() && self.records@[j as int].key == k,
                None => !self.view().contains_key(k),
            },
    {
        let mut i: usize = 0;
        while i < self.records.len()
            invariant
                i <= self.records@.len(),
                forall|j: int| 0 <= j < i ==> self.records@[j].key != k,
            decreases self.records@.len() - i,
        {
            if self.records[i].key == k {
                return Some(i);
            }
            i = i + 1;
        }
        proof {
            lemma_map_of_contains(self.records@, k);
        }
        None
    }

    /// The delta recorded under `k`, if any.
    pub fn get(&self, k: LedgerKey) -> (r: Option<i16>)
        requires
            self.wf(),
        ensures
            r == (if self.view().contains_key(k) { Some(self.view()[k]) } else { None::<i16> }),
    {
        match self.position(k) {
            Some(j) => {
                proof {
                    lemma_map_of_value(self.records@, j as int);
                }
                Some(self.records[j].diff)
            },
            None => None,
        }
    }

    /// Records delta `d` under a key that has none yet.
    fn insert_new(&mut self, k: LedgerKey, d: i16)
        requires
            old(self).wf(),
            !old(self).view().contains_key(k),
        ensures
            final(self).wf(),
            final(self).view() == old(self).view().insert(k, d),
    {
        proof {
            lemma_map_of_contains(self.records@, k);
        }
        let ghost s = self.records@;
        self.records.push(ScoreRecord { key: k, diff: d });
        assert(self.records@.drop_last() =~= s);
    }

    /// Removes the record under `k`, handing back its delta.
    fn take(&mut self, k: LedgerKey) -> (r: Option<i16>)
        requires
            old(self).wf(),
        ensures
            final(self).wf(),
            r == (if old(self).view().contains_key(k) { Some(old(self).view()[k]) } else { None::<i16> }),
            final(self).view() == old(self).view().remove(k),
    {
        match self.position(k) {
            Some(j) => {
                proof {
                    lemma_map_of_value(self.records@, j as int);
                    lemma_map_of_remove(self.records@, j as int);
                }
                let rec = self.records.remove(j);
                Some(rec.diff)
            },
            None => {
                assert(self.view().remove(k) =~= self.view());
                None
            },
        }
    }

    /// Applies weight `w` under `k` to a signed score, which stops at the
    /// bounds of `i32`; returns the new score.
    pub fn apply_i32(&mut self, v: i32, k: LedgerKey, w: i16) -> (r: Result<i32, Error>)
        requires
            old(self).wf(),
        ensures
            final(self).wf(),
            match r {
                Ok(v2) => ledger_apply(old(self).view(), v as int, i32::MIN as int, i32::MAX as int, k, w)
                    == Ok::<(Map<LedgerKey, i16>, int), Error>((final(self).view(), v2 as int)),
                Err(e) => ledger_apply(old(self).view(), v as int, i32::MIN as int, i32::MAX as int, k, w)
                    == Err::<(Map<LedgerKey, i16>, int), Error>(e) && final(self).view() == old(self).view(),
            },
    {
        if self.position(k).is_some() {
            proof {
                lemma_map_of_contains(self.records@, k);
            }
            return Err(Error::LedgerConflict(LedgerFault::AlreadyApplied));
        }
        let sum: i64 = v as i64 + w as i64;
        let v2: i32 = if sum < i32::MIN as i64 {
            i32::MIN
        } else if sum > i32::MAX as i64 {
            i32::MAX
        } else {
            sum as i32
        };
        let d: i16 = (v2 as i64 - v as i64) as i16;
        self.insert_new(k, d);
        Ok(v2)
    }

    /// Takes back the change recorded under `k` from a signed score.
    pub fn reverse_i32(&mut self, v: i32, k: LedgerKey) -> (r: Result<i32, Error>)
        requires
            old(self).wf(),
        ensures
            final(self).wf(),
            match r {
                Ok(v2) => ledger_reverse(old(self).view(), v as int, i32::MIN as int, i32::MAX as int, k)
                    == Ok::<(Map<LedgerKey, i16>, int), Error>((final(self).view(), v2 as int)),
                Err(e) => ledger_reverse(old(self).view(), v as int, i32::MIN as int, i32::MAX as int, k)
                    == Err::<(Map<LedgerKey, i16>, int), Error>(e) && final(self).view() == old(self).view(),
            },
    {
        match self.take(k) {
            None => Err(Error::LedgerConflict(LedgerFault::NotApplied)),
            Some(d) => {
                let diff: i64 = v as i64 - d as i64;
                let v2: i32 = if diff < i32::MIN as i64 {
                    i32::MIN
                } else if diff > i32::MAX as i64 {
                    i32::MAX
                } else {
                    diff as i32
                };
                Ok(v2)
            },
        }
    }

    /// Applies weight `w` under `k` to a reputation, which never drops below
    /// zero nor passes the bound of `u32`; returns the new reputation.
    pub fn apply_u32(&mut self, v: u32, k: LedgerKey, w: i16) -> (r: Result<u32, Error>)
        requires
            old(self).wf(),
        ensures
            final(self).wf(),
            match r {
                Ok(v2) => ledger_apply(old(self).view(), v as int, 0, u32::MAX as int, k, w)
                    == Ok::<(Map<LedgerKey, i16>, int), Error>((final(self).view(), v2 as int)),
                Err(e) => ledger_apply(old(self).view(), v as int, 0, u32::MAX as int, k, w)
                    == Err::<(Map<LedgerKey, i16>, int), Error>(e) && final(self).view() == old(self).view(),
            },
    {
        if self.position(k).is_some() {
            proof {
                lemma_map_of_contains(self.records@, k);
            }
            return Err(Error::LedgerConflict(LedgerFault::AlreadyApplied));
        }
        let sum: i64 = v as i64 + w as i64;
        let v2: u32 = if sum < 0 {
            0
        } else if sum > u32::MAX as i64 {
            u32::MAX
        } else {
            sum as u32
        };
        let d: i16 = (v2 as i64 - v as i64) as i16;
        self.insert_new(k, d);
        Ok(v2)
    }

    /// Takes back the change recorded under `k` from a reputation.
    pub fn reverse_u32(&mut self, v: u32, k: LedgerKey) -> (r: Result<u32, Error>)
        requires
            old(self).wf(),
        ensures
            final(self).wf(),
            match r {
                Ok(v2) => ledger_reverse(old(self).view(), v as int, 0, u32::MAX as int, k)
                    == Ok::<(Map<LedgerKey, i16>, int), Error>((final(self).view(), v2 as int)),
                Err(e) => ledger_reverse(old(self).view(), v as int, 0, u32::MAX as int, k)
                    == Err::<(Map<LedgerKey, i16>, int), Error>(e) && final(self).view() == old(self).view(),
            },
    {
        match self.take(k) {
            None => Err(Error::LedgerConflict(LedgerFault::NotApplied)),
            Some(d) => {
                let diff: i64 = v as i64 - d as i64;
                let v2: u32 = if diff < 0 {
                    0
                } else if diff > u32::MAX as i64 {
                    u32::MAX
                } else {
                    diff as u32
                };
                Ok(v2)
            },
        }
    }
}

/// Applying the same change twice with no reversal in between: the second
/// attempt is refused, so the value stays as the first one left it.
pub proof fn lemma_apply_twice_refused(m: Map<LedgerKey, i16>, v: int, lo: int, hi: int, k: LedgerKey, w: i16)
    requires
        ledger_apply(m, v, lo, hi, k, w) is Ok,
    ensures
        ({
            let (m2, v2) = ledger_apply(m, v, lo, hi, k, w)->Ok_0;
            ledger_apply(m2, v2, lo, hi, k, w) == Err::<(Map<LedgerKey, i16>, int), Error>(
                Error::LedgerConflict(LedgerFault::AlreadyApplied),
            )
        }),
{
}

/// Reversing a change right after applying it restores both the ledger and
/// the value exactly, whatever the bounds cut off.
pub proof fn lemma_reverse_restores(m: Map<LedgerKey, i16>, v: int, lo: int, hi: int, k: LedgerKey, w: i16)
    requires
        lo <= v <= hi,
        ledger_apply(m, v, lo, hi, k, w) is Ok,
    ensures
        ({
            let (m2, v2) = ledger_apply(m, v, lo, hi, k, w)->Ok_0;
            ledger_reverse(m2, v2, lo, hi, k) == Ok::<(Map<LedgerKey, i16>, int), Error>((m, v))
        }),
{
    let (m2, v2) = ledger_apply(m, v, lo, hi, k, w)->Ok_0;
    assert(m2.remove(k) =~= m);
}

} // verus!
