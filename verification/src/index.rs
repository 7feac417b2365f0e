//! The fingerprint index: an append-only sequence of file records and the
//! query that groups the records sharing a content digest.
//!
//! A record enters the index only after its file was fully fingerprinted,
//! so the index never holds partial entries; the grouping query reports a
//! digest exactly when at least two records carry it.

use vstd::prelude::*;

verus! {

/// One indexed file: its path (treated as an opaque identifier), its byte
/// count, and its 128-bit content digest.
pub struct FileRecord {
    pub path: String,
    pub size: u64,
    pub digest: u128,
}

impl Clone for FileRecord {
    fn clone(&self) -> (r: Self)
        ensures
            r == *self,
    {
        FileRecord { path: self.path.clone(), size: self.size, digest: self.digest }
    }
}

/// The records of `s` that carry digest `d`, in index order.
pub open spec fn with_digest(s: Seq<FileRecord>, d: u128) -> Seq<FileRecord> {
    s.filter(|r: FileRecord| r.digest == d)
}

/// How many records of `s` carry digest `d`.
pub open spec fn digest_count(s: Seq<FileRecord>, d: u128) -> nat {
    with_digest(s, d).len()
}

/// No record before `k` carries the digest of the record at `k`.
pub open spec fn first_occurrence(s: Seq<FileRecord>, k: int) -> bool
    recommends
        0 <= k < s.len(),
{
    forall|j: int| 0 <= j < k ==> (#[trigger] s[j]).digest != s[k].digest
}

/// One duplicate group: a digest and the records that share it.
pub struct DuplicateGroup {
    pub digest: u128,
    pub members: Vec<FileRecord>,
}

/// Some group of `gs` carries digest `d`.
pub open spec fn reported(gs: Seq<DuplicateGroup>, d: u128) -> bool {
    exists|g: int| 0 <= g < gs.len() && (#[trigger] gs[g]).digest == d
}

/// What a duplicate report says of the records it was drawn from:
/// each group holds exactly the records carrying its digest, in index
/// order; a group exists only for a digest carried by at least two
/// records; no digest is reported twice; and every digest carried by at
/// least two records is reported.
pub open spec fn valid_grouping(s: Seq<FileRecord>, gs: Seq<DuplicateGroup>) -> bool {
    &&& forall|g: int|
        0 <= g < gs.len() ==> (#[trigger] gs[g]).members@ == with_digest(s, gs[g].digest)
    &&& forall|g: int| 0 <= g < gs.len() ==> digest_count(s, (#[trigger] gs[g]).digest) >= 2
    &&& forall|g: int, h: int|
        0 <= g < h < gs.len() ==> (#[trigger] gs[g]).digest != (#[trigger] gs[h]).digest
    &&& forall|d: u128| #[trigger] digest_count(s, d) >= 2 ==> reported(gs, d)
}

/// The append-only index of fingerprinted files.
pub struct FileIndex {
    records: Vec<FileRecord>,
}

impl View for FileIndex {
    type V = Seq<FileRecord>;

    closed spec fn view(&self) -> Seq<FileRecord> {
        self.records@
    }
}

/// Splitting off the last element steps the digest filter by one record.
proof fn lemma_with_digest_take_step(s: Seq<FileRecord>, d: u128, i: int)
    requires
        0 <= i < s.len(),
    ensures
        with_digest(s.take(i + 1), d) == if s[i].digest == d {
            with_digest(s.take(i), d).push(s[i])
        } else {
            with_digest(s.take(i), d)
        },
{
    reveal(Seq::filter);
    assert(s.take(i + 1).drop_last() =~= s.take(i));
    assert(s.take(i + 1).last() == s[i]);
}

/// A digest with a positive count occurs at some index.
proof fn lemma_digest_occurs(s: Seq<FileRecord>, d: u128) -> (k: int)
    requires
        digest_count(s, d) > 0,
    ensures
        0 <= k < s.len(),
        s[k].digest == d,
    decreases s.len(),
{
    reveal(Seq::filter);
    if s.last().digest == d {
        s.len() - 1
    } else {
        let k = lemma_digest_occurs(s.drop_last(), d);
        assert(s[k].digest == d);
        k
    }
}

/// A digest with a count of two or more occurs at two distinct indices.
proof fn lemma_two_occurrences(s: Seq<FileRecord>, d: u128) -> (w: (int, int))
    requires
        digest_count(s, d) >= 2,
    ensures
        0 <= w.0 < w.1 < s.len(),
        s[w.0].digest == d,
        s[w.1].digest == d,
    decreases s.len(),
{
    reveal(Seq::filter);
    if s.last().digest == d {
        let i = lemma_digest_occurs(s.drop_last(), d);
        assert(s[i].digest == d);
        (i, s.len() - 1)
    } else {
        let (i, j) = lemma_two_occurrences(s.drop_last(), d);
        assert(s[i].digest == d && s[j].digest == d);
        (i, j)
    }
}

/// Every occurring digest has a first occurrence.
proof fn lemma_first_occurrence_exists(s: Seq<FileRecord>, k: int) -> (k0: int)
    requires
        0 <= k < s.len(),
    ensures
        0 <= k0 <= k,
        s[k0].digest == s[k].digest,
        first_occurrence(s, k0),
    decreases k,
{
    if first_occurrence(s, k) {
        k
    } else {
        let j = choose|j: int| 0 <= j < k && (#[trigger] s[j]).digest == s[k].digest;
        lemma_first_occurrence_exists(s, j)
    }
}

/// Every element of the digest filter is one of the records.
proof fn lemma_with_digest_members(s: Seq<FileRecord>, d: u128, m: int)
    requires
        0 <= m < with_digest(s, d).len(),
    ensures
        s.contains(with_digest(s, d)[m]),
        with_digest(s, d)[m].digest == d,
    decreases s.len(),
{
    reveal(Seq::filter);
    let sub = with_digest(s.drop_last(), d);
    if s.last().digest == d && m == sub.len() {
        assert(s[s.len() - 1] == with_digest(s, d)[m]);
    } else {
        lemma_with_digest_members(s.drop_last(), d, m);
        let j = choose|j: int|
            0 <= j < s.drop_last().len() && s.drop_last()[j] == with_digest(s.drop_last(), d)[m];
        assert(s[j] == with_digest(s, d)[m]);
    }
}

/// Whether some record before `upto` carries digest `d`.
fn digest_before(records: &Vec<FileRecord>, upto: usize, d: u128) -> (found: bool)
    requires
        upto <= records@.len(),
    ensures
        found == exists|k: int| 0 <= k < upto && (#[trigger] records@[k]).digest == d,
{
    let mut i: usize = 0;
    while i < upto
        invariant
            i <= upto <= records@.len(),
            forall|k: int| 0 <= k < i ==> (#[trigger] records@[k]).digest != d,
        decreases upto - i,
    {
        if records[i].digest == d {
            return true;
        }
        i = i + 1;
    }
    false
}

/// All records of the index carrying digest `d`, in index order.
fn members_with_digest(records: &Vec<FileRecord>, d: u128) -> (m: Vec<FileRecord>)
    ensures
        m@ == with_digest(records@, d),
{
    let mut m: Vec<FileRecord> = Vec::new();
    let n = records.len();
    let mut i: usize = 0;
    while i < n
        invariant
            i <= n == records@.len(),
            m@ == with_digest(records@.take(i as int), d),
        decreases n - i,
    {
        if records[i].digest == d {
            m.push(records[i].clone());
        }
        proof {
            lemma_with_digest_take_step(records@, d, i as int);
        }
        i = i + 1;
    }
    proof {
        assert(records@.take(n as int) =~= records@);
    }
    m
}

impl FileIndex {
    /// An empty index.
    pub fn new() -> (idx: Self)
        ensures
            idx@ == Seq::<FileRecord>::empty(),
    {
        FileIndex { records: Vec::new() }
    }

    /// Appends one fully fingerprinted file; nothing else ever changes
    /// the indexed records.
    pub fn insert(&mut self, r: FileRecord)
        ensures
            final(self)@ == old(self)@.push(r),
    {
        self.records.push(r);
    }

    /// How many records the index holds.
    pub fn len(&self) -> (n: usize)
        ensures
            n == self@.len(),
    {
        self.records.len()
    }

    /// The indexed records, in insertion order.
    pub fn records(&self) -> (rs: &Vec<FileRecord>)
        ensures
            rs@ == self@,
    {
        &self.records
    }

    /// Groups the records that share a digest: one group per digest
    /// carried by at least two records, holding exactly those records.
    pub fn group_duplicates(&self) -> (gs: Vec<DuplicateGroup>)
        ensures
            valid_grouping(self@, gs@),
    {
        let ghost s = self@;
        let mut gs: Vec<DuplicateGroup> = Vec::new();
        let n = self.records.len();
        let mut i: usize = 0;
        while i < n
            invariant
                i <= n == s.len(),
                self@ == s,
                forall|g: int|
                    0 <= g < gs@.len() ==> (#[trigger] gs@[g]).members@ == with_digest(
                        s,
                        gs@[g].digest,
                    ),
                forall|g: int|
                    0 <= g < gs@.len() ==> digest_count(s, (#[trigger] gs@[g]).digest) >= 2,
                forall|g: int|
                    0 <= g < gs@.len() ==> exists|k: int|
                        0 <= k < i && (#[trigger] s[k]).digest == (#[trigger] gs@[g]).digest,
                forall|g: int, h: int|
                    0 <= g < h < gs@.len() ==> (#[trigger] gs@[g]).digest != (
                    #[trigger] gs@[h]).digest,
                forall|k: int|
                    0 <= k < i && first_occurrence(s, k) && digest_count(
                        s,
                        (#[trigger] s[k]).digest,
                    ) >= 2 ==> reported(gs@, s[k].digest),
            decreases n - i,
        {
            let d = self.records[i].digest;
            proof {
                assert(s[i as int].digest == d);
            }
            if !digest_before(&self.records, i, d) {
                let m = members_with_digest(&self.records, d);
                if m.len() >= 2 {
                    let ghost old_gs = gs@;
                    gs.push(DuplicateGroup { digest: d, members: m });
                    proof {
                        assert(gs@[gs@.len() - 1].digest == d);
                        assert(reported(gs@, d));
                        assert forall|dd: u128| reported(old_gs, dd) implies reported(
                            gs@,
                            dd,
                        ) by {
                            let g = choose|g: int|
                                0 <= g < old_gs.len() && (#[trigger] old_gs[g]).digest == dd;
                            assert(gs@[g].digest == dd);
                        }
                    }
                } else {
                    proof {
                        assert(digest_count(s, d) < 2);
                    }
                }
            } else {
                proof {
                    assert(!first_occurrence(s, i as int));
                }
            }
            i = i + 1;
        }
        proof {
            assert forall|d: u128| #[trigger] digest_count(s, d) >= 2 implies reported(
                gs@,
                d,
            ) by {
                let k = lemma_digest_occurs(s, d);
                let k0 = lemma_first_occurrence_exists(s, k);
                assert(digest_count(s, s[k0].digest) >= 2);
            }
        }
        gs
    }
}

/// A file that was never indexed — one whose open, read or insert
/// failed — appears nowhere in the report: every member of every group
/// is one of the indexed records, and carries the group's digest.
pub proof fn lemma_groups_only_hold_indexed_records(
    s: Seq<FileRecord>,
    gs: Seq<DuplicateGroup>,
)
    requires
        valid_grouping(s, gs),
    ensures
        forall|g: int, m: int|
            #![trigger gs[g].members@[m]]
            0 <= g < gs.len() && 0 <= m < gs[g].members@.len() ==> s.contains(gs[g].members@[m])
                && gs[g].members@[m].digest == gs[g].digest,
{
    assert forall|g: int, m: int|
        #![trigger gs[g].members@[m]]
        0 <= g < gs.len() && 0 <= m < gs[g].members@.len() implies s.contains(gs[g].members@[m])
        && gs[g].members@[m].digest == gs[g].digest by {
        lemma_with_digest_members(s, gs[g].digest, m);
    }
}

/// A set of files with pairwise-distinct content yields no duplicate
/// group at all.
pub proof fn lemma_distinct_digests_no_groups(s: Seq<FileRecord>, gs: Seq<DuplicateGroup>)
    requires
        valid_grouping(s, gs),
        forall|i: int, j: int|
            0 <= i < j < s.len() ==> (#[trigger] s[i]).digest != (#[trigger] s[j]).digest,
    ensures
        gs.len() == 0,
{
    if gs.len() > 0 {
        assert(digest_count(s, gs[0].digest) >= 2);
        lemma_two_occurrences(s, gs[0].digest);
        assert(false);
    }
}

/// When at least two records share a digest, a correct report carries
/// exactly one group for that digest, and it holds exactly the records
/// with that digest — as many members as there are such records, no
/// more and no fewer, whatever else is indexed.
pub proof fn lemma_shared_digest_one_group(
    s: Seq<FileRecord>,
    gs: Seq<DuplicateGroup>,
    d: u128,
)
    requires
        valid_grouping(s, gs),
        digest_count(s, d) >= 2,
    ensures
        reported(gs, d),
        forall|g: int|
            0 <= g < gs.len() && (#[trigger] gs[g]).digest == d ==> gs[g].members@ == with_digest(
                s,
                d,
            ) && gs[g].members@.len() == digest_count(s, d),
        forall|g: int, h: int|
            0 <= g < h < gs.len() && (#[trigger] gs[g]).digest == d ==> (#[trigger] gs[h]).digest
                != d,
{
}

} // verus!
