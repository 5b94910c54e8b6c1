//! The record store: an ordered in-memory collection of user records with
//! store-assigned identifiers, and the operations that create, list, replace
//! and delete records.

use vstd::prelude::*;

verus! {

/// The caller-supplied payload for creating a record. It carries no identity:
/// the store assigns the id.
pub struct NewUserRequest {
    pub name: String,
    pub age: i32,
}

/// A stored user record. The `id` is assigned by the store on creation and is
/// never chosen by a caller; `name` and `age` are caller-supplied and may be
/// overwritten by a replace.
pub struct UserRecord {
    pub id: u128,
    pub name: String,
    pub age: i32,
}

/// The mathematical value of a `UserRecord`.
pub ghost struct RecordModel {
    pub id: u128,
    pub name: Seq<char>,
    pub age: int,
}

impl View for UserRecord {
    type V = RecordModel;

    open spec fn view(&self) -> RecordModel {
        RecordModel { id: self.id, name: self.name@, age: self.age as int }
    }
}

impl Clone for UserRecord {
    fn clone(&self) -> (r: Self)
        ensures
            r == *self,
    {
        UserRecord { id: self.id, name: self.name.clone(), age: self.age }
    }
}

/// The ways a store operation can fail: only a lookup of an id that no
/// current record carries.
#[derive(Clone, Copy, PartialEq, Eq, Structural, Debug)]
pub enum StoreError {
    NotFound,
}

/// No two records of the sequence share an id.
pub open spec fn distinct_ids(s: Seq<RecordModel>) -> bool {
    forall|i: int, j: int| 0 <= i < j < s.len() ==> s[i].id != s[j].id
}

/// Some record of the sequence carries the id.
pub open spec fn has_id(s: Seq<RecordModel>, id: u128) -> bool {
    exists|i: int| 0 <= i < s.len() && s[i].id == id
}

/// The position of a record carrying the id; meaningful when `has_id` holds,
/// and then unique whenever the ids of `s` are distinct.
pub open spec fn idx_of(s: Seq<RecordModel>, id: u128) -> int {
    choose|i: int| 0 <= i < s.len() && s[i].id == id
}

/// The two variant bits of the id, bits 63 and 62, are one and zero, as they
/// are in every RFC 4122 version-4 UUID.
pub open spec fn is_random_id(id: u128) -> bool {
    id & 0xC000_0000_0000_0000 == 0x8000_0000_0000_0000
}

/// A deterministic fallback id, used when a random draw collides with an id
/// already assigned: the position of the id among all assigned ids stands in
/// its high 64 bits, and its variant bits are zero and one, which no
/// version-4 UUID carries.
pub open spec fn is_fallback_id(id: u128, pos: int) -> bool {
    id >> 64 == pos && id & 0xC000_0000_0000_0000 == 0x4000_0000_0000_0000
}

/// The discipline the store's id generator keeps: every assigned id is
/// either a random version-4 UUID or the fallback for the position at which
/// it was assigned. Any two ids of such a sequence at distinct positions are
/// distinct unless both are random, and a fresh fallback differs from all of
/// them.
pub open spec fn ids_well_formed(ids: Seq<u128>) -> bool {
    forall|i: int|
        0 <= i < ids.len() ==> is_random_id(#[trigger] ids[i]) || is_fallback_id(ids[i], i)
}

/// An ordered collection of user records, with ids that are unique among the
/// current records and never reused, even after a delete.
pub struct Store {
    records: Vec<UserRecord>,
    issued_ids: Vec<u128>,
}

/// Whether the sequence holds the value; a linear scan.
fn seq_holds(v: &Vec<u128>, x: u128) -> (b: bool)
    ensures
        b == v@.contains(x),
{
    let n = v.len();
    let mut k: usize = 0;
    while k < n
        invariant
            n == v@.len(),
            k <= n,
            forall|i: int| 0 <= i < k ==> v@[i] != x,
        decreases n - k,
    {
        if v[k] == x {
            return true;
        }
        k += 1;
    }
    false
}

impl Store {
    /// The current records, in insertion order.
    pub closed spec fn recs(self) -> Seq<RecordModel> {
        self.records@.map_values(|r: UserRecord| r@)
    }

    /// Every id the store has ever assigned, in order of assignment,
    /// including the ids of records that were later deleted.
    pub closed spec fn issued(self) -> Seq<u128> {
        self.issued_ids@
    }

    /// Validity: every current record carries an assigned id, no two current
    /// records share an id, and the assigned ids keep the generator's
    /// discipline.
    pub open spec fn wf(self) -> bool {
        &&& forall|i: int|
            0 <= i < self.recs().len() ==> self.issued().contains(#[trigger] self.recs()[i].id)
        &&& distinct_ids(self.recs())
        &&& ids_well_formed(self.issued())
    }

    /// What a create guarantees: the returned record carries the request's
    /// name and age and a newly assigned id, one never assigned before; the
    /// record is appended to the current records, all others unchanged.
    pub open spec fn create_post(pre: Store, post: Store, req: NewUserRequest, r: UserRecord) -> bool {
        &&& r@.name == req.name@
        &&& r@.age == req.age as int
        &&& !pre.issued().contains(r.id)
        &&& post.issued() == pre.issued().push(r.id)
        &&& post.recs() == pre.recs().push(r@)
    }

    /// What a replace guarantees: the assigned ids are untouched; the
    /// operation succeeds exactly when some current record carries the
    /// argument's id, and then overwrites every field of that record in
    /// place, all other records and the order unchanged.
    pub open spec fn replace_post(pre: Store, post: Store, rec: RecordModel, ok: bool) -> bool {
        &&& post.issued() == pre.issued()
        &&& ok == has_id(pre.recs(), rec.id)
        &&& if ok {
            post.recs() == pre.recs().update(idx_of(pre.recs(), rec.id), rec)
        } else {
            post.recs() == pre.recs()
        }
    }

    /// What a delete guarantees: the assigned ids are untouched; the
    /// operation succeeds exactly when some current record carries the id,
    /// and then removes that one record, shifting the records after it down
    /// by one; on failure the records are unchanged.
    pub open spec fn delete_post(pre: Store, post: Store, id: u128, ok: bool) -> bool {
        &&& post.issued() == pre.issued()
        &&& ok == has_id(pre.recs(), id)
        &&& if ok {
            &&& post.recs() == pre.recs().remove(idx_of(pre.recs(), id))
            &&& post.recs().len() == pre.recs().len() - 1
            &&& !has_id(post.recs(), id)
        } else {
            post.recs() == pre.recs()
        }
    }

    /// An empty store.
    pub fn new() -> (s: Store)
        ensures
            s.wf(),
            s.recs() == Seq::<RecordModel>::empty(),
            s.issued() == Seq::<u128>::empty(),
    {
        let s = Store { records: Vec::new(), issued_ids: Vec::new() };
        proof {
            assert(s.recs() =~= Seq::<RecordModel>::empty());
            assert(s.issued() =~= Seq::<u128>::empty());
        }
        s
    }

    /// Assigns an id never assigned before and records it as assigned. The
    /// id is a fresh random version-4 UUID whenever the draw misses
    /// everything already assigned; on the rare collision it is the
    /// deterministic fallback for the current position, which no version-4
    /// UUID and no earlier fallback can equal.
    fn fresh_id(&mut self) -> (id: u128)
        requires
            old(self).wf(),
        ensures
            final(self).wf(),
            final(self).recs() == old(self).recs(),
            !old(self).issued().contains(id),
            final(self).issued() == old(self).issued().push(id),
    {
        let r = crate::ids::random_id();
        let id: u128 = if !seq_holds(&self.issued_ids, r) {
            r
        } else {
            let len: usize = self.issued_ids.len();
            let low: u128 = 0x4000_0000_0000_0000 | (r & 0x3FFF_FFFF_FFFF_FFFF);
            let fb: u128 = ((len as u128) << 64) | low;
            proof {
                let l = len as u128;
                assert(low & 0xC000_0000_0000_0000u128 == 0x4000_0000_0000_0000u128 && low
                    < 0x1_0000_0000_0000_0000u128) by (bit_vector)
                    requires
                        low == 0x4000_0000_0000_0000u128 | (r & 0x3FFF_FFFF_FFFF_FFFFu128),
                ;
                assert(((l << 64u128) | low) >> 64u128 == l && ((l << 64u128) | low)
                    & 0xC000_0000_0000_0000u128 == low & 0xC000_0000_0000_0000u128) by (bit_vector)
                    requires
                        l < 0x1_0000_0000_0000_0000u128,
                        low < 0x1_0000_0000_0000_0000u128,
                ;
                assert(is_fallback_id(fb, old(self).issued().len() as int));
                assert forall|i: int| 0 <= i < old(self).issued().len() implies old(
                    self,
                ).issued()[i] != fb by {
                    if is_random_id(old(self).issued()[i]) {
                        assert(fb & 0xC000_0000_0000_0000 != 0x8000_0000_0000_0000);
                    }
                }
                assert(!old(self).issued().contains(fb));
            }
            fb
        };
        self.issued_ids.push(id);
        proof {
            assert(self.recs() =~= old(self).recs());
            assert forall|i: int| 0 <= i < self.issued().len() implies is_random_id(
                #[trigger] self.issued()[i],
            ) || is_fallback_id(self.issued()[i], i) by {
                if i < old(self).issued().len() {
                    assert(is_random_id(old(self).issued()[i]) || is_fallback_id(
                        old(self).issued()[i],
                        i,
                    ));
                }
            }
            assert forall|i: int| 0 <= i < self.recs().len() implies self.issued().contains(
                (#[trigger] self.recs()[i]).id,
            ) by {
                assert(old(self).issued().contains(old(self).recs()[i].id));
                let w = choose|w: int|
                    0 <= w < old(self).issued().len() && old(self).issued()[w] == old(
                        self,
                    ).recs()[i].id;
                assert(self.issued()[w] == self.recs()[i].id);
            }
        }
        id
    }

    /// Creates a record from the request's name and age, assigns it a fresh
    /// id that was never assigned before, appends it to the current records
    /// and returns it, id included. Never fails; the fields are stored as
    /// given, with no further validation.
    pub fn create(&mut self, req: NewUserRequest) -> (r: UserRecord)
        requires
            old(self).wf(),
        ensures
            final(self).wf(),
            Self::create_post(*old(self), *final(self), req, r),
    {
        let id = self.fresh_id();
        let ghost mid = *self;
        let rec = UserRecord { id, name: req.name, age: req.age };
        let out = rec.clone();
        self.records.push(rec);
        proof {
            assert(self.recs() =~= mid.recs().push(out@));
            assert forall|i: int| 0 <= i < self.recs().len() implies self.issued().contains(
                (#[trigger] self.recs()[i]).id,
            ) by {
                if i < mid.recs().len() {
                    assert(mid.issued().contains(mid.recs()[i].id));
                } else {
                    assert(self.issued().last() == id);
                }
            }
            assert forall|i: int, j: int|
                0 <= i < j < self.recs().len() implies self.recs()[i].id != self.recs()[j].id by {
                if j < mid.recs().len() {
                    assert(distinct_ids(mid.recs()));
                } else {
                    assert(old(self).issued().contains(old(self).recs()[i].id));
                }
            }
        }
        out
    }

    /// A snapshot of all current records, in insertion order.
    pub fn list(&self) -> (out: Vec<UserRecord>)
        ensures
            out@.len() == self.recs().len(),
            forall|i: int| 0 <= i < out@.len() ==> (#[trigger] out@[i])@ == self.recs()[i],
    {
        let mut out: Vec<UserRecord> = Vec::new();
        let n = self.records.len();
        let mut k: usize = 0;
        while k < n
            invariant
                n == self.records@.len(),
                k <= n,
                out@.len() == k,
                forall|i: int| 0 <= i < k ==> (#[trigger] out@[i])@ == self.recs()[i],
            decreases n - k,
        {
            out.push(self.records[k].clone());
            k += 1;
        }
        out
    }

    /// The position of the current record carrying `id`, if any.
    fn find_index(&self, id: u128) -> (r: Option<usize>)
        ensures
            match r {
                Some(k) => k < self.recs().len() && self.recs()[k as int].id == id,
                None => !has_id(self.recs(), id),
            },
    {
        let n = self.records.len();
        let mut k: usize = 0;
        while k < n
            invariant
                n == self.records@.len(),
                k <= n,
                forall|i: int| 0 <= i < k ==> (#[trigger] self.recs()[i]).id != id,
            decreases n - k,
        {
            if self.records[k].id == id {
                return Some(k);
            }
            k += 1;
        }
        None
    }

    /// Overwrites the record whose id matches `rec.id` with `rec`, keeping
    /// its position; fails with `NotFound` when no current record carries
    /// that id.
    pub fn replace(&mut self, rec: UserRecord) -> (res: Result<(), StoreError>)
        requires
            old(self).wf(),
        ensures
            final(self).wf(),
            Self::replace_post(*old(self), *final(self), rec@, res is Ok),
            res is Err ==> res == Err::<(), StoreError>(StoreError::NotFound),
    {
        match self.find_index(rec.id) {
            Some(k) => {
                proof {
                    lemma_idx_of_unique(self.recs(), rec.id, k as int);
                }
                self.records[k] = rec;
                proof {
                    assert(self.recs() =~= old(self).recs().update(k as int, rec@));
                }
                Ok(())
            },
            None => Err(StoreError::NotFound),
        }
    }

    /// Removes the record whose id matches `id`, shifting the records after
    /// it down by one; fails with `NotFound` when no current record carries
    /// that id.
    pub fn delete(&mut self, id: u128) -> (res: Result<(), StoreError>)
        requires
            old(self).wf(),
        ensures
            final(self).wf(),
            Self::delete_post(*old(self), *final(self), id, res is Ok),
            res is Err ==> res == Err::<(), StoreError>(StoreError::NotFound),
    {
        match self.find_index(id) {
            Some(k) => {
                proof {
                    lemma_idx_of_unique(self.recs(), id, k as int);
                }
                self.records.remove(k);
                proof {
                    assert(self.recs() =~= old(self).recs().remove(k as int));
                    old(self).recs().remove_ensures(k as int);
                }
                Ok(())
            },
            None => Err(StoreError::NotFound),
        }
    }
}

/// When the ids of `s` are distinct, any position that carries `id` is the
/// position `idx_of` picks.
pub proof fn lemma_idx_of_unique(s: Seq<RecordModel>, id: u128, i: int)
    requires
        distinct_ids(s),
        0 <= i < s.len(),
        s[i].id == id,
    ensures
        has_id(s, id),
        idx_of(s, id) == i,
{
    assert(has_id(s, id));
    let j = idx_of(s, id);
    assert(0 <= j < s.len() && s[j].id == id);
}

/// No store operation unassigns an id: after any one operation the ids
/// assigned before it stand unchanged at the front of the ids assigned after
/// it. A list, replace or delete leaves them exactly as they were (`pushed`
/// is `None`); a create appends the one id of the record it returns. This is
/// the step that, chained, lets `lemma_create_ids_distinct` apply to creates
/// anywhere in a run.
pub proof fn lemma_issued_monotone(pre: Store, post: Store, pushed: Option<u128>)
    requires
        match pushed {
            Some(id) => post.issued() == pre.issued().push(id),
            None => post.issued() == pre.issued(),
        },
    ensures
        pre.issued().is_prefix_of(post.issued()),
{
    assert(pre.issued() =~= post.issued().subrange(0, pre.issued().len() as int));
}

/// Chains two steps of `lemma_issued_monotone`: the assigned ids of an
/// earlier store stay a prefix through any number of later operations.
pub proof fn lemma_prefix_chain(a: Seq<u128>, b: Seq<u128>, c: Seq<u128>)
    requires
        a.is_prefix_of(b),
        b.is_prefix_of(c),
    ensures
        a.is_prefix_of(c),
{
    assert forall|i: int| 0 <= i < a.len() implies a[i] == c[i] by {
        assert(a[i] == b.subrange(0, a.len() as int)[i]);
        assert(b[i] == c.subrange(0, b.len() as int)[i]);
    }
    assert(a =~= c.subrange(0, a.len() as int));
}

/// Uniqueness: any two creates in a run of store operations return records
/// with distinct ids. Every operation either preserves the assigned ids or
/// appends to them, so between the two creates the assigned ids of the first
/// store remain a prefix of the assigned ids seen by the second.
pub proof fn lemma_create_ids_distinct(
    s0: Store,
    s1: Store,
    req1: NewUserRequest,
    r1: UserRecord,
    mid: Store,
    s2: Store,
    req2: NewUserRequest,
    r2: UserRecord,
)
    requires
        Store::create_post(s0, s1, req1, r1),
        s1.issued().is_prefix_of(mid.issued()),
        Store::create_post(mid, s2, req2, r2),
    ensures
        r1.id != r2.id,
{
    let n = s0.issued().len() as int;
    assert(s1.issued()[n] == r1.id);
    assert(mid.issued()[n] == r1.id);
    assert(mid.issued().contains(r1.id));
}

/// Round-trip: the record a create returns carries the request's name and
/// age, and the store then holds it as its last record, every earlier record
/// unchanged in place.
pub proof fn lemma_create_round_trip(s0: Store, s1: Store, req: NewUserRequest, r: UserRecord)
    requires
        Store::create_post(s0, s1, req, r),
    ensures
        r@.name == req.name@,
        r@.age == req.age as int,
        s1.recs().len() == s0.recs().len() + 1,
        s1.recs().last() == r@,
        forall|i: int| 0 <= i < s0.recs().len() ==> s1.recs()[i] == s0.recs()[i],
{
}

/// Replace idempotence: replacing with the same record twice in a row has
/// the same outcome both times and leaves the store exactly as it stood
/// after the first replace.
pub proof fn lemma_replace_idempotent(
    s0: Store,
    s1: Store,
    s2: Store,
    rec: RecordModel,
    ok1: bool,
    ok2: bool,
)
    requires
        s0.wf(),
        s1.wf(),
        Store::replace_post(s0, s1, rec, ok1),
        Store::replace_post(s1, s2, rec, ok2),
    ensures
        ok2 == ok1,
        s2.recs() == s1.recs(),
        s2.issued() == s1.issued(),
{
    if ok1 {
        let i = idx_of(s0.recs(), rec.id);
        assert(0 <= i < s0.recs().len() && s0.recs()[i].id == rec.id);
        assert(s1.recs()[i] == rec);
        lemma_idx_of_unique(s1.recs(), rec.id, i);
        assert(s2.recs() =~= s1.recs());
    } else {
        assert(s2.recs() =~= s1.recs());
    }
}

/// Order preservation: a successful delete leaves every record before the
/// deleted position at its place and shifts every record after it down by
/// one; together with creates appending at the end, the listing order is the
/// creation order of the surviving records.
pub proof fn lemma_delete_preserves_order(s0: Store, s1: Store, id: u128)
    requires
        Store::delete_post(s0, s1, id, true),
    ensures
        forall|j: int| 0 <= j < idx_of(s0.recs(), id) ==> s1.recs()[j] == s0.recs()[j],
        forall|j: int|
            idx_of(s0.recs(), id) <= j < s1.recs().len() ==> s1.recs()[j] == s0.recs()[j + 1],
{
    let k = idx_of(s0.recs(), id);
    assert(0 <= k < s0.recs().len() && s0.recs()[k].id == id);
    s0.recs().remove_ensures(k);
}

} // verus!
