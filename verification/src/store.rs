//! A transactional key-value store held in memory, with faults that can be injected.
//!
//! The commit scheduler treats its storage backend as a collaborator that stages writes
//! in a transaction and makes them visible together.  This module states that behaviour
//! over a mathematical map and provides a small store that meets it, so that the
//! scheduler can be exercised without a storage engine behind it.

use vstd::prelude::*;

verus! {

/// One mutation: a value for a key within a namespace.
#[derive(Debug)]
pub struct Write {
    /// The table that the write targets.
    pub namespace: String,
    /// The key within the table.
    pub key: u64,
    /// The bytes to store under the key.
    pub value: Vec<u8>,
}

impl Write {
    /// The cell that the write targets: its namespace and key.
    pub open spec fn slot(&self) -> (Seq<char>, u64) {
        (self.namespace@, self.key)
    }
}

/// What a store holds: the bytes under each cell that was ever written.
pub type Contents = Map<(Seq<char>, u64), Seq<u8>>;

/// The contents after the writes `ws` were applied to `c` in order; a later write to a
/// cell replaces an earlier one.
pub open spec fn apply_writes(c: Contents, ws: Seq<Write>) -> Contents
    decreases ws.len(),
{
    if ws.len() == 0 {
        c
    } else {
        apply_writes(c, ws.drop_last()).insert(ws.last().slot(), ws.last().value@)
    }
}

/// Where a store is made to fail.
#[derive(Clone, Copy, Debug, PartialEq, Eq, Structural)]
pub enum Fault {
    /// Every operation succeeds.
    Never,
    /// Opening a write transaction fails.
    AtBegin,
    /// Within each transaction, the insert with this position (counted from zero) fails.
    AtInsert(usize),
    /// Committing fails.
    AtCommit,
}

/// A failed store operation.
#[derive(Clone, Copy, Debug, PartialEq, Eq, Structural)]
pub enum StoreError {
    /// The write transaction could not be opened.
    BeginFailed,
    /// The insert at this position within the transaction failed.
    InsertFailed { index: usize },
    /// The commit failed; nothing of the transaction became visible.
    CommitFailed,
}

/// How a transaction of `count` inserts ends on a store with the fault `fault`.
pub open spec fn transaction_result(fault: Fault, count: nat) -> Result<(), StoreError> {
    match fault {
        Fault::Never => Ok(()),
        Fault::AtBegin => Err(StoreError::BeginFailed),
        Fault::AtInsert(k) => if k < count {
            Err(StoreError::InsertFailed { index: k })
        } else {
            Ok(())
        },
        Fault::AtCommit => Err(StoreError::CommitFailed),
    }
}

/// Whether some row targets the cell `k`.
spec fn has_slot(rows: Seq<Write>, k: (Seq<char>, u64)) -> bool {
    exists|i: int| 0 <= i < rows.len() && #[trigger] rows[i].slot() == k
}

/// A row that targets the cell `k`, where there is one.
spec fn row_of(rows: Seq<Write>, k: (Seq<char>, u64)) -> int {
    choose|i: int| 0 <= i < rows.len() && #[trigger] rows[i].slot() == k
}

/// No two rows target one cell.
spec fn distinct_slots(rows: Seq<Write>) -> bool {
    forall|i: int, j: int|
        0 <= i < j < rows.len() ==> #[trigger] rows[i].slot() != #[trigger] rows[j].slot()
}

/// The map that rows with distinct cells stand for.
spec fn contents_of(rows: Seq<Write>) -> Contents {
    Map::new(
        |k: (Seq<char>, u64)| has_slot(rows, k),
        |k: (Seq<char>, u64)| rows[row_of(rows, k)].value@,
    )
}

proof fn lemma_row_of(rows: Seq<Write>, i: int)
    requires
        distinct_slots(rows),
        0 <= i < rows.len(),
    ensures
        has_slot(rows, rows[i].slot()),
        row_of(rows, rows[i].slot()) == i,
{
    let k = rows[i].slot();
    let j = row_of(rows, k);
    assert(0 <= j < rows.len() && rows[j].slot() == k);
    if j < i {
        assert(rows[j].slot() != rows[i].slot());
    } else if i < j {
        assert(rows[i].slot() != rows[j].slot());
    }
}

proof fn lemma_contents_push(rows: Seq<Write>, w: Write)
    requires
        distinct_slots(rows),
        !has_slot(rows, w.slot()),
    ensures
        distinct_slots(rows.push(w)),
        contents_of(rows.push(w)) == contents_of(rows).insert(w.slot(), w.value@),
{
    let next = rows.push(w);
    assert forall|i: int, j: int| 0 <= i < j < next.len() implies #[trigger] next[i].slot()
        != #[trigger] next[j].slot() by {
        if j < rows.len() {
            assert(rows[i].slot() != rows[j].slot());
        } else {
            assert(rows[i].slot() != w.slot());
        }
    }
    let old_map = contents_of(rows).insert(w.slot(), w.value@);
    let new_map = contents_of(next);
    assert forall|k: (Seq<char>, u64)| new_map.dom().contains(k) == old_map.dom().contains(
        k,
    ) by {
        if has_slot(next, k) {
            let i = row_of(next, k);
            if i < rows.len() {
                assert(rows[i].slot() == k);
            }
        }
        if has_slot(rows, k) {
            let i = row_of(rows, k);
            assert(next[i].slot() == k);
        }
        if k == w.slot() {
            assert(next[rows.len() as int].slot() == k);
        }
    }
    assert forall|k: (Seq<char>, u64)| new_map.dom().contains(k) implies new_map[k]
        == old_map[k] by {
        let i = row_of(next, k);
        lemma_row_of(next, i);
        if i < rows.len() {
            lemma_row_of(rows, i);
        }
    }
    assert(new_map =~= old_map);
}

proof fn lemma_contents_update(rows: Seq<Write>, at: int, w: Write)
    requires
        distinct_slots(rows),
        0 <= at < rows.len(),
        rows[at].slot() == w.slot(),
    ensures
        distinct_slots(rows.update(at, w)),
        contents_of(rows.update(at, w)) == contents_of(rows).insert(w.slot(), w.value@),
{
    let next = rows.update(at, w);
    assert forall|i: int, j: int| 0 <= i < j < next.len() implies #[trigger] next[i].slot()
        != #[trigger] next[j].slot() by {
        assert(rows[i].slot() != rows[j].slot());
    }
    let old_map = contents_of(rows).insert(w.slot(), w.value@);
    let new_map = contents_of(next);
    assert forall|k: (Seq<char>, u64)| new_map.dom().contains(k) == old_map.dom().contains(
        k,
    ) by {
        if has_slot(next, k) {
            let i = row_of(next, k);
            assert(rows[i].slot() == k);
        }
        if has_slot(rows, k) {
            let i = row_of(rows, k);
            assert(next[i].slot() == k);
        }
        if k == w.slot() {
            assert(next[at].slot() == k);
        }
    }
    assert forall|k: (Seq<char>, u64)| new_map.dom().contains(k) implies new_map[k]
        == old_map[k] by {
        let i = row_of(next, k);
        lemma_row_of(next, i);
        lemma_row_of(rows, i);
    }
    assert(new_map =~= old_map);
}

proof fn lemma_contents_finite(rows: Seq<Write>)
    requires
        distinct_slots(rows),
    ensures
        contents_of(rows).dom().finite(),
        contents_of(rows).dom().len() == rows.len(),
{
    let slots = Seq::new(rows.len(), |i: int| rows[i].slot());
    assert forall|i: int, j: int| 0 <= i < slots.len() && 0 <= j < slots.len() && i != j implies
        slots[i] != slots[j] by {
        if i < j {
            assert(rows[i].slot() != rows[j].slot());
        } else {
            assert(rows[j].slot() != rows[i].slot());
        }
    }
    assert(slots.no_duplicates());
    slots.unique_seq_to_set();
    assert forall|k: (Seq<char>, u64)| slots.to_set().contains(k) == contents_of(
        rows,
    ).dom().contains(k) by {
        if slots.contains(k) {
            let i = choose|i: int| 0 <= i < slots.len() && slots[i] == k;
            assert(rows[i].slot() == k);
        }
        if has_slot(rows, k) {
            let i = row_of(rows, k);
            assert(slots[i] == k);
        }
    }
    assert(slots.to_set() =~= contents_of(rows).dom());
}

/// The rows of a store, and the writes staged against it, in memory.
pub struct MemoryStore {
    rows: Vec<Write>,
    fault: Fault,
}

/// An open write transaction: the writes staged so far, in the order they were staged.
pub struct Transaction {
    staged: Vec<Write>,
    fault: Fault,
}

impl Transaction {
    /// The writes staged so far.
    pub closed spec fn staged(&self) -> Seq<Write> {
        self.staged@
    }

    /// The fault of the store that the transaction was opened on.
    pub closed spec fn fault(&self) -> Fault {
        self.fault
    }

    /// Stages `write`.  The insert whose position the store's fault names fails and
    /// leaves the transaction as it was; every other insert is appended.
    pub fn insert(&mut self, write: Write) -> (r: Result<(), StoreError>)
        ensures
            final(self).fault() == old(self).fault(),
            r == (if old(self).fault() == Fault::AtInsert(old(self).staged().len() as usize) {
                Err::<(), StoreError>(StoreError::InsertFailed { index: old(self).staged().len() as usize })
            } else {
                Ok(())
            }),
            r is Ok ==> final(self).staged() == old(self).staged().push(write),
            r is Err ==> final(self).staged() == old(self).staged(),
    {
        let at = self.staged.len();
        match self.fault {
            Fault::AtInsert(k) => {
                if k == at {
                    return Err(StoreError::InsertFailed { index: at });
                }
            },
            _ => {},
        }
        self.staged.push(write);
        Ok(())
    }
}

impl MemoryStore {
    /// The store's invariant: no two of its rows target one cell.
    pub closed spec fn wf(&self) -> bool {
        distinct_slots(self.rows@)
    }

    /// The visible contents: what committed transactions have written.
    pub closed spec fn contents(&self) -> Contents {
        contents_of(self.rows@)
    }

    /// Where the store is made to fail.
    pub closed spec fn fault(&self) -> Fault {
        self.fault
    }

    /// An empty store that never fails.
    pub fn new() -> (s: MemoryStore)
        ensures
            s.wf(),
            s.contents() == Map::<(Seq<char>, u64), Seq<u8>>::empty(),
            s.fault() == Fault::Never,
    {
        let s = MemoryStore { rows: Vec::new(), fault: Fault::Never };
        assert(s.contents() =~= Map::<(Seq<char>, u64), Seq<u8>>::empty());
        s
    }

    /// Makes the store fail at `fault` from now on; its contents stay.
    pub fn set_fault(&mut self, fault: Fault)
        requires
            old(self).wf(),
        ensures
            final(self).wf(),
            final(self).contents() == old(self).contents(),
            final(self).fault() == fault,
    {
        self.fault = fault;
    }

    /// The number of cells that hold a value.
    pub fn len(&self) -> (n: usize)
        requires
            self.wf(),
        ensures
            self.contents().dom().finite(),
            n == self.contents().dom().len(),
    {
        proof {
            lemma_contents_finite(self.rows@);
        }
        self.rows.len()
    }

    fn find(&self, namespace: &String, key: u64) -> (r: Option<usize>)
        ensures
            match r {
                Some(i) => i < self.rows@.len() && self.rows@[i as int].slot() == (namespace@, key),
                None => !has_slot(self.rows@, (namespace@, key)),
            },
    {
        let mut i: usize = 0;
        while i < self.rows.len()
            invariant
                0 <= i <= self.rows@.len(),
                forall|j: int| 0 <= j < i ==> #[trigger] self.rows@[j].slot() != (namespace@, key),
            decreases self.rows@.len() - i,
        {
            if self.rows[i].key == key && self.rows[i].namespace.eq(namespace) {
                return Some(i);
            }
            i = i + 1;
        }
        None
    }

    /// The bytes under `key` in `namespace`, where the cell holds any.
    pub fn get(&self, namespace: &String, key: u64) -> (r: Option<&Vec<u8>>)
        requires
            self.wf(),
        ensures
            match r {
                Some(v) => self.contents().contains_key((namespace@, key)) && v@ == self.contents()[(namespace@, key)],
                None => !self.contents().contains_key((namespace@, key)),
            },
    {
        match self.find(namespace, key) {
            Some(i) => {
                proof {
                    lemma_row_of(self.rows@, i as int);
                }
                Some(&self.rows[i].value)
            },
            None => None,
        }
    }

    /// Opens a write transaction with nothing staged.
    pub fn begin_write(&self) -> (r: Result<Transaction, StoreError>)
        ensures
            r is Err <==> self.fault() == Fault::AtBegin,
            r matches Err(e) ==> e == StoreError::BeginFailed,
            r matches Ok(txn) ==> txn.staged() == Seq::<Write>::empty() && txn.fault() == self.fault(),
    {
        match self.fault {
            Fault::AtBegin => Err(StoreError::BeginFailed),
            _ => Ok(Transaction { staged: Vec::new(), fault: self.fault }),
        }
    }

    fn upsert(&mut self, write: Write)
        requires
            old(self).wf(),
        ensures
            final(self).wf(),
            final(self).contents() == old(self).contents().insert(write.slot(), write.value@),
            final(self).fault() == old(self).fault(),
    {
        match self.find(&write.namespace, write.key) {
            Some(i) => {
                proof {
                    lemma_contents_update(self.rows@, i as int, write);
                }
                self.rows.set(i, write);
            },
            None => {
                proof {
                    lemma_contents_push(self.rows@, write);
                }
                self.rows.push(write);
            },
        }
    }

    /// Makes the writes staged in `txn` visible, all of them or none.  On a store whose
    /// fault is `AtCommit` the commit fails and the contents stay as they were.
    pub fn commit(&mut self, txn: Transaction) -> (r: Result<(), StoreError>)
        requires
            old(self).wf(),
        ensures
            final(self).wf(),
            final(self).fault() == old(self).fault(),
            r is Err <==> old(self).fault() == Fault::AtCommit,
            r matches Err(e) ==> e == StoreError::CommitFailed && final(self).contents() == old(self).contents(),
            r is Ok ==> final(self).contents() == apply_writes(old(self).contents(), txn.staged()),
    {
        match self.fault {
            Fault::AtCommit => {
                return Err(StoreError::CommitFailed);
            },
            _ => {},
        }
        let ghost staged = txn.staged();
        let ghost before = self.contents();
        let Transaction { staged: writes, fault: _ } = txn;
        for write in it: writes
            invariant
                self.wf(),
                self.fault() == old(self).fault(),
                it.seq() == staged,
                self.contents() == apply_writes(before, staged.take(it.index() as int)),
        {
            assert(staged.take(it.index() + 1).drop_last() =~= staged.take(it.index() as int));
            self.upsert(write);
        }
        assert(staged.take(staged.len() as int) =~= staged);
        Ok(())
    }

    /// Runs one transaction: opens it, stages `writes` in order, and commits.
    ///
    /// The transaction is atomic: on success the contents are the old contents with
    /// every write applied, on failure they are the old contents.  Which of the two it
    /// is, and with which error, depends on the store's fault and on how many writes
    /// there are, and on nothing else.
    pub fn transact(&mut self, writes: Vec<Write>) -> (r: Result<(), StoreError>)
        requires
            old(self).wf(),
        ensures
            final(self).wf(),
            final(self).fault() == old(self).fault(),
            r == transaction_result(old(self).fault(), writes@.len()),
            r is Ok ==> final(self).contents() == apply_writes(old(self).contents(), writes@),
            r is Err ==> final(self).contents() == old(self).contents(),
    {
        let mut txn = match self.begin_write() {
            Ok(txn) => txn,
            Err(e) => {
                return Err(e);
            },
        };
        let ghost all = writes@;
        for write in it: writes
            invariant
                self.wf(),
                self.fault() == old(self).fault(),
                self.contents() == old(self).contents(),
                txn.fault() == self.fault(),
                it.seq() == all,
                txn.staged() == all.take(it.index() as int),
                self.fault() != Fault::AtBegin,
                self.fault() matches Fault::AtInsert(k) ==> k >= it.index(),
        {
            assert(all.take(it.index() + 1) =~= all.take(it.index() as int).push(write));
            match txn.insert(write) {
                Ok(()) => {},
                Err(e) => {
                    return Err(e);
                },
            }
        }
        assert(all.take(all.len() as int) =~= all);
        match self.commit(txn) {
            Ok(()) => Ok(()),
            Err(e) => Err(e),
        }
    }
}

/// Whether some write of `ws` targets the cell `k`.
pub open spec fn writes_to(ws: Seq<Write>, k: (Seq<char>, u64)) -> bool {
    exists|i: int| 0 <= i < ws.len() && #[trigger] ws[i].slot() == k
}

/// Applying one batch after another is applying the two of them as one: the order in
/// which requests were grouped into batches leaves no trace in the contents.
pub proof fn lemma_batches_compose(c: Contents, first: Seq<Write>, second: Seq<Write>)
    ensures
        apply_writes(apply_writes(c, first), second) == apply_writes(c, first + second),
    decreases second.len(),
{
    if second.len() == 0 {
        assert(first + second =~= first);
    } else {
        lemma_batches_compose(c, first, second.drop_last());
        assert((first + second).drop_last() =~= first + second.drop_last());
        assert((first + second).last() == second.last());
    }
}

/// After a batch was applied, exactly the cells that were there before and the cells
/// that the batch writes to are there; a cell that the batch does not write to holds
/// what it held.
pub proof fn lemma_applied_cells(c: Contents, ws: Seq<Write>)
    ensures
        forall|k: (Seq<char>, u64)|
            #![trigger apply_writes(c, ws).contains_key(k)]
            #![trigger writes_to(ws, k)]
            apply_writes(c, ws).contains_key(k) <==> c.contains_key(k) || writes_to(ws, k),
        forall|k: (Seq<char>, u64)|
            #![trigger apply_writes(c, ws)[k]]
            c.contains_key(k) && !writes_to(ws, k) ==> apply_writes(c, ws)[k] == c[k],
    decreases ws.len(),
{
    if ws.len() == 0 {
        assert forall|k: (Seq<char>, u64)|
            #![trigger apply_writes(c, ws).contains_key(k)]
            #![trigger writes_to(ws, k)]
            apply_writes(c, ws).contains_key(k) <==> c.contains_key(k) || writes_to(ws, k) by {
            assert(!writes_to(ws, k));
            assert(apply_writes(c, ws) == c);
        }
    } else {
        let front = ws.drop_last();
        lemma_applied_cells(c, front);
        assert forall|k: (Seq<char>, u64)|
            #![trigger apply_writes(c, ws).contains_key(k)]
            #![trigger writes_to(ws, k)]
            apply_writes(c, ws).contains_key(k) <==> c.contains_key(k) || writes_to(ws, k) by {
            assert(apply_writes(c, front).contains_key(k) <==> c.contains_key(k) || writes_to(
                front,
                k,
            ));
            if writes_to(ws, k) {
                let i = choose|i: int| 0 <= i < ws.len() && #[trigger] ws[i].slot() == k;
                if i < front.len() {
                    assert(front[i].slot() == k);
                }
            }
            if writes_to(front, k) {
                let i = choose|i: int| 0 <= i < front.len() && #[trigger] front[i].slot() == k;
                assert(ws[i].slot() == k);
            }
            if k == ws.last().slot() {
                assert(ws[ws.len() - 1].slot() == k);
            }
        }
        assert forall|k: (Seq<char>, u64)| c.contains_key(k) && !writes_to(ws, k) implies
            apply_writes(c, ws)[k] == c[k] by {
            assert(!writes_to(front, k) ==> apply_writes(c, front)[k] == c[k]);
            assert(ws[ws.len() - 1].slot() != k);
            if writes_to(front, k) {
                let i = choose|i: int| 0 <= i < front.len() && #[trigger] front[i].slot() == k;
                assert(ws[i].slot() == k);
            }
        }
    }
}

/// The last write to a cell wins: a write of an applied batch is what its cell holds,
/// unless a later write of the batch targets the same cell.
pub proof fn lemma_last_write_wins(c: Contents, ws: Seq<Write>, at: int)
    requires
        0 <= at < ws.len(),
        forall|j: int| at < j < ws.len() ==> #[trigger] ws[j].slot() != ws[at].slot(),
    ensures
        apply_writes(c, ws).contains_key(ws[at].slot()),
        apply_writes(c, ws)[ws[at].slot()] == ws[at].value@,
    decreases ws.len(),
{
    if at < ws.len() - 1 {
        let front = ws.drop_last();
        assert forall|j: int| at < j < front.len() implies #[trigger] front[j].slot()
            != front[at].slot() by {
            assert(ws[j].slot() != ws[at].slot());
        }
        lemma_last_write_wins(c, front, at);
        assert(ws[ws.len() - 1].slot() != ws[at].slot());
    }
}

/// Within one namespace, the keys below `count` are all there once every one of them
/// was written, however the writes were interleaved with others and in whatever order
/// they were applied.
pub proof fn lemma_lane_keys_present(
    c: Contents,
    ws: Seq<Write>,
    namespace: Seq<char>,
    count: nat,
)
    requires
        forall|key: u64| key < count ==> writes_to(ws, (namespace, key)),
    ensures
        forall|key: u64|
            key < count ==> #[trigger] apply_writes(c, ws).contains_key((namespace, key)),
{
    lemma_applied_cells(c, ws);
}

/// The cells of one lane: the keys below `count` in the namespace `namespace`.
pub open spec fn lane_cells(namespace: Seq<char>, count: nat) -> Set<(Seq<char>, u64)> {
    Set::new(|k: (Seq<char>, u64)| k.0 == namespace && k.1 < count)
}

/// The cells of the lanes with the namespaces `namespaces`, each with the keys below
/// `count`.
pub open spec fn all_lane_cells(namespaces: Seq<Seq<char>>, count: nat) -> Set<
    (Seq<char>, u64),
> {
    Set::new(|k: (Seq<char>, u64)| namespaces.contains(k.0) && k.1 < count)
}

/// One lane with `count` keys has `count` cells.
pub proof fn lemma_lane_cells_len(namespace: Seq<char>, count: nat)
    requires
        count <= u64::MAX,
    ensures
        lane_cells(namespace, count).finite(),
        lane_cells(namespace, count).len() == count,
    decreases count,
{
    if count == 0 {
        assert(lane_cells(namespace, count) =~= Set::empty());
    } else {
        let below = (count - 1) as nat;
        lemma_lane_cells_len(namespace, below);
        assert(lane_cells(namespace, count) =~= lane_cells(namespace, below).insert(
            (namespace, below as u64),
        ));
    }
}

/// Lanes with distinct namespaces and `count` keys each have, together, as many cells
/// as there are lanes times `count`.
pub proof fn lemma_all_lane_cells_len(namespaces: Seq<Seq<char>>, count: nat)
    requires
        namespaces.no_duplicates(),
        count <= u64::MAX,
    ensures
        all_lane_cells(namespaces, count).finite(),
        all_lane_cells(namespaces, count).len() == namespaces.len() * count,
    decreases namespaces.len(),
{
    if namespaces.len() == 0 {
        assert(all_lane_cells(namespaces, count) =~= Set::empty());
        assert(namespaces.len() * count == 0) by (nonlinear_arith)
            requires
                namespaces.len() == 0,
        ;
    } else {
        let front = namespaces.drop_last();
        let last = namespaces.last();
        lemma_all_lane_cells_len(front, count);
        lemma_lane_cells_len(last, count);
        let a = all_lane_cells(front, count);
        let b = lane_cells(last, count);
        assert forall|k: (Seq<char>, u64)| a.contains(k) implies !b.contains(k) by {
            if b.contains(k) {
                let i = choose|i: int| 0 <= i < front.len() && front[i] == k.0;
                assert(namespaces[i] == namespaces[namespaces.len() - 1]);
            }
        }
        assert(a.disjoint(b));
        assert forall|k: (Seq<char>, u64)| all_lane_cells(namespaces, count).contains(k) == (a
            + b).contains(k) by {
            if namespaces.contains(k.0) {
                let i = choose|i: int| 0 <= i < namespaces.len() && namespaces[i] == k.0;
                if i < front.len() {
                    assert(front[i] == k.0);
                }
            }
            if front.contains(k.0) {
                let i = choose|i: int| 0 <= i < front.len() && front[i] == k.0;
                assert(namespaces[i] == k.0);
            }
            if k.0 == last {
                assert(namespaces[namespaces.len() - 1] == k.0);
            }
        }
        assert(all_lane_cells(namespaces, count) =~= a + b);
        vstd::set_lib::lemma_set_disjoint_lens(a, b);
        assert(front.len() * count + count == namespaces.len() * count) by (nonlinear_arith)
            requires
                front.len() + 1 == namespaces.len(),
        ;
    }
}

/// No request is lost and none is counted twice: when lanes with distinct namespaces
/// have each written the keys below `count`, and nothing else was written, a store that
/// started empty holds exactly one cell per lane and key, whatever the batches were.
pub proof fn lemma_no_lost_requests(ws: Seq<Write>, namespaces: Seq<Seq<char>>, count: nat)
    requires
        namespaces.no_duplicates(),
        count <= u64::MAX,
        forall|i: int|
            0 <= i < ws.len() ==> all_lane_cells(namespaces, count).contains(
                #[trigger] ws[i].slot(),
            ),
        forall|k: (Seq<char>, u64)|
            all_lane_cells(namespaces, count).contains(k) ==> writes_to(ws, k),
    ensures
        apply_writes(Map::empty(), ws).dom() == all_lane_cells(namespaces, count),
        apply_writes(Map::empty(), ws).dom().finite(),
        apply_writes(Map::empty(), ws).dom().len() == namespaces.len() * count,
{
    let empty = Map::<(Seq<char>, u64), Seq<u8>>::empty();
    lemma_applied_cells(empty, ws);
    lemma_all_lane_cells_len(namespaces, count);
    assert forall|k: (Seq<char>, u64)| apply_writes(empty, ws).dom().contains(k)
        == all_lane_cells(namespaces, count).contains(k) by {
        assert(apply_writes(empty, ws).contains_key(k) <==> writes_to(ws, k));
        if apply_writes(empty, ws).contains_key(k) {
            assert(writes_to(ws, k));
            let i = choose|i: int| 0 <= i < ws.len() && #[trigger] ws[i].slot() == k;
            assert(all_lane_cells(namespaces, count).contains(ws[i].slot()));
        }
    }
    assert(apply_writes(empty, ws).dom() =~= all_lane_cells(namespaces, count));
}

} // verus!
