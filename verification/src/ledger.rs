//! The stock ledger: a fixed vocabulary of movement kinds with their
//! arithmetic and reversal rules, and an append-only record engine
//! that keeps a running total per item.  Edits and deletions never
//! touch a stored row; they append compensating adjustment records.

use vstd::prelude::*;

verus! {

/// Ledger failures, each tied to exactly one rejected situation.
#[derive(Debug, Clone, Copy, PartialEq, Eq, Structural)]
pub enum LedgerError {
    /// An adjustment record was submitted without remarks.
    RecordCreationForbidden,
    /// The record does not belong to the item, or the edit is a no-op.
    RecordUpdateForbidden,
    /// No record carries the requested identifier.
    RecordNotFound,
    /// The movement would push the running total below zero.
    InsufficientQuantity,
    /// The movement would push the running total past the maximum.
    TotalOverflow,
    /// A wire code outside the fixed vocabulary.
    UnknownTransactionType,
}

/// The four stock-movement kinds.
#[derive(Debug, Clone, Copy, PartialEq, Eq, Structural)]
pub enum TransactionType {
    In,
    Out,
    AdjustmentIn,
    AdjustmentOut,
}

/// Signed effect of a movement on a running total.
pub open spec fn spec_arith(t: TransactionType, last_total: int, quantity: int) -> int {
    match t {
        TransactionType::In => last_total + quantity,
        TransactionType::AdjustmentIn => last_total + quantity,
        TransactionType::Out => last_total - quantity,
        TransactionType::AdjustmentOut => last_total - quantity,
    }
}

/// The reversing adjustment kind: always an adjustment, cancelling the
/// effect of the original.
pub open spec fn spec_opposite(t: TransactionType) -> TransactionType {
    match t {
        TransactionType::In => TransactionType::AdjustmentOut,
        TransactionType::Out => TransactionType::AdjustmentIn,
        TransactionType::AdjustmentIn => TransactionType::AdjustmentOut,
        TransactionType::AdjustmentOut => TransactionType::AdjustmentIn,
    }
}

/// Signed magnitude used when comparing an edit against the stored
/// quantity: outgoing movements count negative.
pub open spec fn spec_signed(t: TransactionType, n: int) -> int {
    if t is Out {
        -n
    } else {
        n
    }
}

/// The adjustment kind an edit requires: none for a no-op edit, else
/// the direction that moves the signed magnitude toward the request.
pub open spec fn spec_eval_adjustment(t: TransactionType, cur: int, new: int) -> Option<
    TransactionType,
> {
    if cur == new {
        None
    } else if spec_signed(t, cur) > spec_signed(t, new) {
        Some(TransactionType::AdjustmentOut)
    } else {
        Some(TransactionType::AdjustmentIn)
    }
}

/// The wire code of a movement kind.
pub open spec fn spec_code(t: TransactionType) -> u8 {
    match t {
        TransactionType::In => 1,
        TransactionType::Out => 2,
        TransactionType::AdjustmentIn => 3,
        TransactionType::AdjustmentOut => 4,
    }
}

impl TransactionType {
    /// An incoming movement.
    pub fn new_in() -> (r: TransactionType)
        ensures
            r == TransactionType::In,
    {
        TransactionType::In
    }

    /// An outgoing movement.
    pub fn new_out() -> (r: TransactionType)
        ensures
            r == TransactionType::Out,
    {
        TransactionType::Out
    }

    /// A correcting incoming movement.
    pub fn new_adjustment_in() -> (r: TransactionType)
        ensures
            r == TransactionType::AdjustmentIn,
    {
        TransactionType::AdjustmentIn
    }

    /// A correcting outgoing movement.
    pub fn new_adjustment_out() -> (r: TransactionType)
        ensures
            r == TransactionType::AdjustmentOut,
    {
        TransactionType::AdjustmentOut
    }

    /// Whether this kind corrects an earlier record.
    pub fn is_adjustment(&self) -> (r: bool)
        ensures
            r == (*self is AdjustmentIn || *self is AdjustmentOut),
    {
        matches!(self, TransactionType::AdjustmentIn | TransactionType::AdjustmentOut)
    }

    /// Apply the movement to a running total.  The caller rules out
    /// the two out-of-range situations beforehand.
    pub fn do_arithmetic(&self, last_total: u32, quantity: u32) -> (r: u32)
        requires
            0 <= spec_arith(*self, last_total as int, quantity as int) <= u32::MAX,
        ensures
            r as int == spec_arith(*self, last_total as int, quantity as int),
    {
        match self {
            TransactionType::In => last_total + quantity,
            TransactionType::Out => last_total - quantity,
            TransactionType::AdjustmentIn => last_total + quantity,
            TransactionType::AdjustmentOut => last_total - quantity,
        }
    }

    /// The signed magnitude of a quantity under this kind.
    pub fn casting_to_signed(&self, num: u32) -> (r: i32)
        requires
            num <= 0x7fff_ffff,
        ensures
            r as int == spec_signed(*self, num as int),
    {
        match self {
            TransactionType::Out => -(num as i32),
            _ => num as i32,
        }
    }

    /// The adjustment kind needed to move a stored quantity to a
    /// requested one; absent for a no-op edit.
    pub fn eval_adjustment(&self, current_quantity: u32, new_quantity: u32) -> (r: Option<
        TransactionType,
    >)
        ensures
            r == spec_eval_adjustment(*self, current_quantity as int, new_quantity as int),
    {
        if current_quantity == new_quantity {
            return None;
        }
        let decrease: bool = match self {
            TransactionType::Out => new_quantity > current_quantity,
            _ => current_quantity > new_quantity,
        };
        if decrease {
            Some(TransactionType::AdjustmentOut)
        } else {
            Some(TransactionType::AdjustmentIn)
        }
    }

    /// The reversing adjustment kind.
    pub fn opposite(&self) -> (r: TransactionType)
        ensures
            r == spec_opposite(*self),
    {
        match self {
            TransactionType::In => TransactionType::AdjustmentOut,
            TransactionType::Out => TransactionType::AdjustmentIn,
            TransactionType::AdjustmentIn => TransactionType::AdjustmentOut,
            TransactionType::AdjustmentOut => TransactionType::AdjustmentIn,
        }
    }

    /// The wire code: a small positive integer.
    pub fn encode(&self) -> (r: u8)
        ensures
            r == spec_code(*self),
    {
        match self {
            TransactionType::In => 1,
            TransactionType::Out => 2,
            TransactionType::AdjustmentIn => 3,
            TransactionType::AdjustmentOut => 4,
        }
    }

    /// Decode a wire code; an unrecognized code is a hard error.
    pub fn decode(code: u8) -> (r: Result<TransactionType, LedgerError>)
        ensures
            match r {
                Ok(t) => spec_code(t) == code,
                Err(e) => !(1 <= code <= 4) && e == LedgerError::UnknownTransactionType,
            },
    {
        match code {
            1 => Ok(TransactionType::In),
            2 => Ok(TransactionType::Out),
            3 => Ok(TransactionType::AdjustmentIn),
            4 => Ok(TransactionType::AdjustmentOut),
            _ => Err(LedgerError::UnknownTransactionType),
        }
    }
}

/// One immutable ledger row.
#[derive(Debug, Clone, Copy)]
pub struct Record {
    pub id: i64,
    pub item_id: i64,
    pub date: i64,
    pub transaction_type: TransactionType,
    pub quantity: u32,
    pub total: u32,
    pub adjustment_remarks: Option<i64>,
}

impl Record {
    /// The row's identifier.
    pub fn id(&self) -> (r: i64)
        ensures
            r == self.id,
    {
        self.id
    }

    /// The item the movement belongs to.
    pub fn item_id(&self) -> (r: i64)
        ensures
            r == self.item_id,
    {
        self.item_id
    }

    /// The movement's timestamp.
    pub fn date(&self) -> (r: i64)
        ensures
            r == self.date,
    {
        self.date
    }

    /// The movement kind.
    pub fn transaction_type(&self) -> (r: TransactionType)
        ensures
            r == self.transaction_type,
    {
        self.transaction_type
    }

    /// The moved quantity.
    pub fn quantity(&self) -> (r: u32)
        ensures
            r == self.quantity,
    {
        self.quantity
    }

    /// The running balance after this row.
    pub fn total(&self) -> (r: u32)
        ensures
            r == self.total,
    {
        self.total
    }

    /// For an adjustment: the row this one corrects.
    pub fn adjustment_remarks(&self) -> (r: Option<i64>)
        ensures
            r == self.adjustment_remarks,
    {
        self.adjustment_remarks
    }
}

/// A record stripped of its item column, for per-item listings.
#[derive(Debug, Clone, Copy)]
pub struct ItemRecord {
    pub id: i64,
    pub date: i64,
    pub transaction_type: TransactionType,
    pub quantity: u32,
    pub adjustment_remarks: Option<i64>,
}

impl ItemRecord {
    /// The row's identifier.
    pub fn id(&self) -> (r: i64)
        ensures
            r == self.id,
    {
        self.id
    }

    /// The movement's timestamp.
    pub fn date(&self) -> (r: i64)
        ensures
            r == self.date,
    {
        self.date
    }

    /// The movement kind.
    pub fn transaction_type(&self) -> (r: TransactionType)
        ensures
            r == self.transaction_type,
    {
        self.transaction_type
    }

    /// The moved quantity.
    pub fn quantity(&self) -> (r: u32)
        ensures
            r == self.quantity,
    {
        self.quantity
    }

    /// For an adjustment: the row this one corrects.
    pub fn adjustment_remarks(&self) -> (r: Option<i64>)
        ensures
            r == self.adjustment_remarks,
    {
        self.adjustment_remarks
    }
}

/// An item's identifier with its per-item rows.
#[derive(Debug)]
pub struct ItemRecords {
    pub item_id: i64,
    pub records: Vec<ItemRecord>,
}

impl ItemRecords {
    /// Bundle rows under their item.
    pub fn new(item_id: i64, records: Vec<ItemRecord>) -> (r: Self)
        ensures
            r.item_id == item_id,
            r.records@ == records@,
    {
        ItemRecords { item_id, records }
    }

    /// The item's identifier.
    pub fn item_id(&self) -> (r: i64)
        ensures
            r == self.item_id,
    {
        self.item_id
    }

    /// The per-item rows.
    pub fn records(&self) -> (r: &Vec<ItemRecord>)
        ensures
            r@ == self.records@,
    {
        &self.records
    }
}

/// `a` is a more recent movement than `b`: later date, or same date
/// and later identifier.
pub open spec fn more_recent(a: Record, b: Record) -> bool {
    a.date > b.date || (a.date == b.date && a.id > b.id)
}

/// The most recent record of an item, by date then identifier.
pub open spec fn spec_last(rs: Seq<Record>, item_id: i64) -> Option<Record>
    decreases rs,
{
    if rs.len() == 0 {
        None
    } else {
        let rest = spec_last(rs.drop_last(), item_id);
        let r = rs.last();
        if r.item_id != item_id {
            rest
        } else {
            match rest {
                None => Some(r),
                Some(b) => if more_recent(r, b) {
                    Some(r)
                } else {
                    Some(b)
                },
            }
        }
    }
}

/// The running total of an item: the most recent record's total, or
/// zero when the item has no records.
pub open spec fn spec_last_total(rs: Seq<Record>, item_id: i64) -> int {
    match spec_last(rs, item_id) {
        None => 0,
        Some(r) => r.total as int,
    }
}

/// The record carrying an identifier, if any.
pub open spec fn spec_find_record(rs: Seq<Record>, record_id: i64) -> Option<Record>
    decreases rs,
{
    if rs.len() == 0 {
        None
    } else if rs.first().id == record_id {
        Some(rs.first())
    } else {
        spec_find_record(rs.drop_first(), record_id)
    }
}

/// The item's records, most recently appended first.
pub open spec fn spec_item_records_rev(rs: Seq<Record>, item_id: i64) -> Seq<Record>
    decreases rs,
{
    if rs.len() == 0 {
        Seq::empty()
    } else if rs.last().item_id == item_id {
        seq![rs.last()] + spec_item_records_rev(rs.drop_last(), item_id)
    } else {
        spec_item_records_rev(rs.drop_last(), item_id)
    }
}

/// A record without its item column.
pub open spec fn strip_item(r: Record) -> ItemRecord {
    ItemRecord {
        id: r.id,
        date: r.date,
        transaction_type: r.transaction_type,
        quantity: r.quantity,
        adjustment_remarks: r.adjustment_remarks,
    }
}

/// Widening the window at its old end appends that record, if it
/// matches, to the listing's tail.
proof fn lemma_item_records_rev_snoc(rs: Seq<Record>, x: Record, item_id: i64)
    ensures
        spec_item_records_rev(seq![x] + rs, item_id) == if x.item_id == item_id {
            spec_item_records_rev(rs, item_id).push(x)
        } else {
            spec_item_records_rev(rs, item_id)
        },
    decreases rs.len(),
{
    let w = seq![x] + rs;
    assert(spec_item_records_rev(Seq::<Record>::empty(), item_id) == Seq::<Record>::empty());
    if rs.len() == 0 {
        assert(w.last() == x);
        assert(w.drop_last() =~= Seq::<Record>::empty());
        assert(spec_item_records_rev(w, item_id) == if x.item_id == item_id {
            seq![x] + spec_item_records_rev(Seq::<Record>::empty(), item_id)
        } else {
            Seq::<Record>::empty()
        });
        if x.item_id == item_id {
            assert(spec_item_records_rev(w, item_id) =~= spec_item_records_rev(
                rs,
                item_id,
            ).push(x));
        }
    } else {
        assert(w.last() == rs.last());
        assert(w.drop_last() =~= seq![x] + rs.drop_last());
        lemma_item_records_rev_snoc(rs.drop_last(), x, item_id);
        if x.item_id == item_id {
            if rs.last().item_id == item_id {
                assert(spec_item_records_rev(w, item_id) =~= spec_item_records_rev(
                    rs,
                    item_id,
                ).push(x));
            } else {
                assert(spec_item_records_rev(w, item_id) =~= spec_item_records_rev(
                    rs,
                    item_id,
                ).push(x));
            }
        } else {
            assert(spec_item_records_rev(w, item_id) =~= spec_item_records_rev(rs, item_id));
        }
    }
}

/// The append-only record store with its arithmetic rules.
#[derive(Debug)]
pub struct Ledger {
    pub records: Vec<Record>,
}

impl Ledger {
    /// An empty ledger.
    pub fn new() -> (r: Self)
        ensures
            r.records@ == Seq::<Record>::empty(),
    {
        Ledger { records: Vec::new() }
    }

    /// The most recent record of an item, ordered by date descending
    /// with the identifier as tie-break.
    pub fn get_last(&self, item_id: i64) -> (r: Option<Record>)
        ensures
            r == spec_last(self.records@, item_id),
    {
        let n = self.records.len();
        let mut best: Option<Record> = None;
        let mut i: usize = 0;
        proof {
            assert(self.records@.subrange(0, 0) =~= Seq::<Record>::empty());
        }
        while i < n
            invariant
                i <= n,
                n == self.records@.len(),
                best == spec_last(self.records@.subrange(0, i as int), item_id),
            decreases n - i,
        {
            let r = self.records[i];
            if r.item_id == item_id {
                match best {
                    None => {
                        best = Some(r);
                    },
                    Some(b) => {
                        if r.date > b.date || (r.date == b.date && r.id > b.id) {
                            best = Some(r);
                        }
                    },
                }
            }
            proof {
                assert(self.records@.subrange(0, i + 1).drop_last() =~= self.records@.subrange(
                    0,
                    i as int,
                ));
                assert(self.records@.subrange(0, i + 1).last() == self.records@[i as int]);
            }
            i = i + 1;
        }
        proof {
            assert(self.records@.subrange(0, n as int) =~= self.records@);
        }
        best
    }

    /// The running total of an item; zero when it has no records.
    pub fn get_last_total(&self, item_id: i64) -> (r: u32)
        ensures
            r as int == spec_last_total(self.records@, item_id),
    {
        match self.get_last(item_id) {
            Some(r) => r.total,
            None => 0,
        }
    }

    /// The record with an identifier, if any.
    pub fn get(&self, record_id: i64) -> (r: Option<Record>)
        ensures
            r == spec_find_record(self.records@, record_id),
    {
        let n = self.records.len();
        let mut i: usize = 0;
        proof {
            assert(self.records@.skip(0) =~= self.records@);
        }
        while i < n
            invariant
                i <= n,
                n == self.records@.len(),
                forall|j: int| 0 <= j < i ==> (#[trigger] self.records@[j]).id != record_id,
                spec_find_record(self.records@, record_id) == spec_find_record(
                    self.records@.skip(i as int),
                    record_id,
                ),
            decreases n - i,
        {
            if self.records[i].id == record_id {
                proof {
                    assert(self.records@.skip(i as int).first() == self.records@[i as int]);
                }
                return Some(self.records[i]);
            }
            proof {
                assert(self.records@.skip(i as int).first() == self.records@[i as int]);
                assert(self.records@.skip(i as int).drop_first() =~= self.records@.skip(i + 1));
            }
            i = i + 1;
        }
        proof {
            assert(self.records@.skip(n as int) =~= Seq::<Record>::empty());
        }
        None
    }

    /// The item's records, most recently appended first.
    pub fn get_all_for_item(&self, item_id: i64) -> (r: ItemRecords)
        ensures
            r.item_id == item_id,
            r.records@.len() == spec_item_records_rev(self.records@, item_id).len(),
            forall|j: int| 0 <= j < r.records@.len() ==> (#[trigger] r.records@[j]) == strip_item(
                spec_item_records_rev(self.records@, item_id)[j],
            ),
    {
        let n = self.records.len();
        let mut out: Vec<ItemRecord> = Vec::new();
        let mut i: usize = n;
        proof {
            assert(self.records@.subrange(n as int, n as int) =~= Seq::<Record>::empty());
        }
        while i > 0
            invariant
                i <= n,
                n == self.records@.len(),
                out@.len() == spec_item_records_rev(
                    self.records@.subrange(i as int, n as int),
                    item_id,
                ).len(),
                forall|j: int| 0 <= j < out@.len() ==> (#[trigger] out@[j]) == strip_item(
                    spec_item_records_rev(self.records@.subrange(i as int, n as int), item_id)[j],
                ),
            decreases i,
        {
            i = i - 1;
            let rec = self.records[i];
            let ghost win = self.records@.subrange(i as int, n as int);
            let ghost prevwin = self.records@.subrange(i + 1, n as int);
            proof {
                assert(win =~= seq![self.records@[i as int]] + prevwin);
                lemma_item_records_rev_snoc(prevwin, self.records@[i as int], item_id);
            }
            if rec.item_id == item_id {
                out.push(
                    ItemRecord {
                        id: rec.id,
                        date: rec.date,
                        transaction_type: rec.transaction_type,
                        quantity: rec.quantity,
                        adjustment_remarks: rec.adjustment_remarks,
                    },
                );
            }
        }
        proof {
            assert(self.records@.subrange(0, n as int) =~= self.records@);
        }
        ItemRecords { item_id, records: out }
    }

    /// Record a movement: the single mutation path.  An adjustment
    /// kind demands remarks; the new running total must stay within
    /// range.  On success the new row, holding the computed total and
    /// the next identifier, is appended; nothing else changes.
    pub fn create(
        &mut self,
        item_id: i64,
        date: i64,
        transaction_type: TransactionType,
        quantity: u32,
        adjustment_remarks: Option<i64>,
    ) -> (r: Result<i64, LedgerError>)
        requires
            old(self).records@.len() < 0x7fff_ffff_ffff_ffff,
        ensures
            ({
                let last = spec_last_total(old(self).records@, item_id);
                let total = spec_arith(transaction_type, last, quantity as int);
                if (transaction_type is AdjustmentIn || transaction_type is AdjustmentOut)
                    && adjustment_remarks is None {
                    r == Err::<i64, LedgerError>(LedgerError::RecordCreationForbidden)
                        && final(self).records@ == old(self).records@
                } else if total < 0 {
                    r == Err::<i64, LedgerError>(LedgerError::InsufficientQuantity) && final(self).records@ == old(self).records@
                } else if total > u32::MAX {
                    r == Err::<i64, LedgerError>(LedgerError::TotalOverflow) && final(self).records@ == old(self).records@
                } else {
                    r == Ok::<i64, LedgerError>((old(self).records@.len() + 1) as i64) && final(self).records@ == old(self).records@.push(
                        Record {
                            id: (old(self).records@.len() + 1) as i64,
                            item_id,
                            date,
                            transaction_type,
                            quantity,
                            total: total as u32,
                            adjustment_remarks,
                        },
                    )
                }
            }),
    {
        if transaction_type.is_adjustment() && adjustment_remarks.is_none() {
            return Err(LedgerError::RecordCreationForbidden);
        }
        let last_total = self.get_last_total(item_id);
        let subtracts = matches!(
            transaction_type,
            TransactionType::Out | TransactionType::AdjustmentOut
        );
        if subtracts && quantity > last_total {
            return Err(LedgerError::InsufficientQuantity);
        }
        if !subtracts && quantity > u32::MAX - last_total {
            return Err(LedgerError::TotalOverflow);
        }
        let total = transaction_type.do_arithmetic(last_total, quantity);
        let id = self.records.len() as i64 + 1;
        self.records.push(
            Record {
                id,
                item_id,
                date,
                transaction_type,
                quantity,
                total,
                adjustment_remarks,
            },
        );
        Ok(id)
    }

    /// Edit a record's quantity without touching the stored row: a new
    /// adjustment record is appended, carrying the difference and a
    /// back-reference; the stored rows stay exactly as they were.
    pub fn update(&mut self, item_id: i64, record_id: i64, quantity: u32) -> (r: Result<
        (),
        LedgerError,
    >)
        requires
            old(self).records@.len() < 0x7fff_ffff_ffff_ffff,
        ensures
            ({
                let found = spec_find_record(old(self).records@, record_id);
                match found {
                    None => r == Err::<(), LedgerError>(LedgerError::RecordNotFound) && final(self).records@ == old(self).records@,
                    Some(rec) => {
                        let ev = spec_eval_adjustment(
                            rec.transaction_type,
                            rec.quantity as int,
                            quantity as int,
                        );
                        if rec.item_id != item_id || ev is None {
                            r == Err::<(), LedgerError>(LedgerError::RecordUpdateForbidden)
                                && final(self).records@ == old(self).records@
                        } else {
                            let tt = ev->Some_0;
                            let dq = if rec.quantity >= quantity {
                                rec.quantity - quantity
                            } else {
                                quantity - rec.quantity
                            };
                            let total = spec_arith(
                                tt,
                                spec_last_total(old(self).records@, item_id),
                                dq as int,
                            );
                            if total < 0 {
                                r == Err::<(), LedgerError>(LedgerError::InsufficientQuantity)
                                    && final(self).records@ == old(self).records@
                            } else if total > u32::MAX {
                                r == Err::<(), LedgerError>(LedgerError::TotalOverflow) && final(self).records@ == old(self).records@
                            } else {
                                let added = final(self).records@.last();
                                r == Ok::<(), LedgerError>(()) && final(self).records@.len() == old(
                                    self,
                                ).records@.len() + 1 && final(self).records@.subrange(
                                    0,
                                    old(self).records@.len() as int,
                                ) == old(self).records@ && added.id == (old(self).records@.len()
                                    + 1) as i64 && added.item_id == item_id
                                    && added.transaction_type == tt && added.quantity == dq
                                    && added.total == total && added.adjustment_remarks == Some(
                                    record_id,
                                )
                            }
                        }
                    },
                }
            }),
    {
        let current = match self.get(record_id) {
            Some(c) => c,
            None => {
                return Err(LedgerError::RecordNotFound);
            },
        };
        if current.item_id != item_id {
            return Err(LedgerError::RecordUpdateForbidden);
        }
        let tt = match current.transaction_type.eval_adjustment(current.quantity, quantity) {
            Some(t) => t,
            None => {
                return Err(LedgerError::RecordUpdateForbidden);
            },
        };
        let dq = if current.quantity >= quantity {
            current.quantity - quantity
        } else {
            quantity - current.quantity
        };
        let date = now_timestamp();
        let ghost before = self.records@;
        match self.create(current.item_id, date, tt, dq, Some(record_id)) {
            Ok(_) => {
                proof {
                    assert(self.records@.subrange(0, before.len() as int) =~= before);
                }
                Ok(())
            },
            Err(e) => Err(e),
        }
    }

    /// Logically delete a record: append a record of the opposite,
    /// adjustment kind with the same quantity, referencing the deleted
    /// row; the stored rows stay exactly as they were.
    pub fn delete(&mut self, record_id: i64, item_id: i64) -> (r: Result<(), LedgerError>)
        requires
            old(self).records@.len() < 0x7fff_ffff_ffff_ffff,
        ensures
            ({
                let found = spec_find_record(old(self).records@, record_id);
                match found {
                    None => r == Err::<(), LedgerError>(LedgerError::RecordNotFound) && final(self).records@ == old(self).records@,
                    Some(rec) => {
                        if rec.item_id != item_id {
                            r == Err::<(), LedgerError>(LedgerError::RecordUpdateForbidden)
                                && final(self).records@ == old(self).records@
                        } else {
                            let tt = spec_opposite(rec.transaction_type);
                            let total = spec_arith(
                                tt,
                                spec_last_total(old(self).records@, item_id),
                                rec.quantity as int,
                            );
                            if total < 0 {
                                r == Err::<(), LedgerError>(LedgerError::InsufficientQuantity)
                                    && final(self).records@ == old(self).records@
                            } else if total > u32::MAX {
                                r == Err::<(), LedgerError>(LedgerError::TotalOverflow) && final(self).records@ == old(self).records@
                            } else {
                                let added = final(self).records@.last();
                                r == Ok::<(), LedgerError>(()) && final(self).records@.len() == old(
                                    self,
                                ).records@.len() + 1 && final(self).records@.subrange(
                                    0,
                                    old(self).records@.len() as int,
                                ) == old(self).records@ && added.id == (old(self).records@.len()
                                    + 1) as i64 && added.item_id == item_id
                                    && added.transaction_type == tt && added.quantity
                                    == rec.quantity && added.total == total
                                    && added.adjustment_remarks == Some(record_id)
                            }
                        }
                    },
                }
            }),
    {
        let current = match self.get(record_id) {
            Some(c) => c,
            None => {
                return Err(LedgerError::RecordNotFound);
            },
        };
        if current.item_id != item_id {
            return Err(LedgerError::RecordUpdateForbidden);
        }
        let opposite_tt = current.transaction_type.opposite();
        let date = now_timestamp();
        let ghost before = self.records@;
        match self.create(item_id, date, opposite_tt, current.quantity, Some(record_id)) {
            Ok(_) => {
                proof {
                    assert(self.records@.subrange(0, before.len() as int) =~= before);
                }
                Ok(())
            },
            Err(e) => Err(e),
        }
    }

    /// Every stored row, in insertion order.
    pub fn get_all(&self) -> (r: &Vec<Record>)
        ensures
            r@ == self.records@,
    {
        &self.records
    }

    /// All rows whose date falls in the frame, most recently appended
    /// first.
    pub fn get_in_timeframe(&self, start: i64, end: i64) -> (r: Vec<Record>)
        ensures
            r@ == spec_frame_rev(self.records@, start, end),
    {
        let n = self.records.len();
        let mut out: Vec<Record> = Vec::new();
        let mut i: usize = n;
        proof {
            assert(self.records@.subrange(n as int, n as int) =~= Seq::<Record>::empty());
        }
        while i > 0
            invariant
                i <= n,
                n == self.records@.len(),
                out@ == spec_frame_rev(self.records@.subrange(i as int, n as int), start, end),
            decreases i,
        {
            i = i - 1;
            let rec = self.records[i];
            let ghost prevwin = self.records@.subrange(i + 1, n as int);
            proof {
                assert(self.records@.subrange(i as int, n as int) =~= seq![
                    self.records@[i as int],
                ] + prevwin);
                lemma_frame_rev_snoc(prevwin, self.records@[i as int], start, end);
            }
            if start <= rec.date && rec.date <= end {
                out.push(rec);
            }
        }
        proof {
            assert(self.records@.subrange(0, n as int) =~= self.records@);
        }
        out
    }

    /// One item's rows whose date falls in the frame, most recently
    /// appended first.
    pub fn get_in_timeframe_for_item(&self, item_id: i64, start: i64, end: i64) -> (r: ItemRecords)
        ensures
            r.item_id == item_id,
            ({
                let sel = spec_frame_item_rev(self.records@, item_id, start, end);
                r.records@.len() == sel.len() && (forall|j: int|
                    0 <= j < sel.len() ==> (#[trigger] r.records@[j]) == strip_item(sel[j]))
            }),
    {
        let n = self.records.len();
        let mut out: Vec<ItemRecord> = Vec::new();
        let mut i: usize = n;
        proof {
            assert(self.records@.subrange(n as int, n as int) =~= Seq::<Record>::empty());
        }
        while i > 0
            invariant
                i <= n,
                n == self.records@.len(),
                out@.len() == spec_frame_item_rev(
                    self.records@.subrange(i as int, n as int),
                    item_id,
                    start,
                    end,
                ).len(),
                forall|j: int| 0 <= j < out@.len() ==> (#[trigger] out@[j]) == strip_item(
                    spec_frame_item_rev(
                        self.records@.subrange(i as int, n as int),
                        item_id,
                        start,
                        end,
                    )[j],
                ),
            decreases i,
        {
            i = i - 1;
            let rec = self.records[i];
            let ghost prevwin = self.records@.subrange(i + 1, n as int);
            proof {
                assert(self.records@.subrange(i as int, n as int) =~= seq![
                    self.records@[i as int],
                ] + prevwin);
                lemma_frame_item_rev_snoc(prevwin, self.records@[i as int], item_id, start, end);
            }
            if rec.item_id == item_id && start <= rec.date && rec.date <= end {
                out.push(
                    ItemRecord {
                        id: rec.id,
                        date: rec.date,
                        transaction_type: rec.transaction_type,
                        quantity: rec.quantity,
                        adjustment_remarks: rec.adjustment_remarks,
                    },
                );
            }
        }
        proof {
            assert(self.records@.subrange(0, n as int) =~= self.records@);
        }
        ItemRecords { item_id, records: out }
    }
}

/// Rows in a date frame, most recently appended first.
pub open spec fn spec_frame_rev(rs: Seq<Record>, start: i64, end: i64) -> Seq<Record>
    decreases rs,
{
    if rs.len() == 0 {
        Seq::empty()
    } else if start <= rs.last().date <= end {
        seq![rs.last()] + spec_frame_rev(rs.drop_last(), start, end)
    } else {
        spec_frame_rev(rs.drop_last(), start, end)
    }
}

/// One item's rows in a date frame, most recently appended first.
pub open spec fn spec_frame_item_rev(rs: Seq<Record>, item_id: i64, start: i64, end: i64) -> Seq<
    Record,
>
    decreases rs,
{
    if rs.len() == 0 {
        Seq::empty()
    } else if rs.last().item_id == item_id && start <= rs.last().date <= end {
        seq![rs.last()] + spec_frame_item_rev(rs.drop_last(), item_id, start, end)
    } else {
        spec_frame_item_rev(rs.drop_last(), item_id, start, end)
    }
}

/// Widening the window at its old end appends a matching record to
/// the frame listing's tail.
proof fn lemma_frame_rev_snoc(rs: Seq<Record>, x: Record, start: i64, end: i64)
    ensures
        spec_frame_rev(seq![x] + rs, start, end) == if start <= x.date <= end {
            spec_frame_rev(rs, start, end).push(x)
        } else {
            spec_frame_rev(rs, start, end)
        },
    decreases rs.len(),
{
    let w = seq![x] + rs;
    assert(spec_frame_rev(Seq::<Record>::empty(), start, end) == Seq::<Record>::empty());
    if rs.len() == 0 {
        assert(w.last() == x);
        assert(w.drop_last() =~= Seq::<Record>::empty());
        if start <= x.date <= end {
            assert(spec_frame_rev(w, start, end) =~= spec_frame_rev(rs, start, end).push(x));
        }
    } else {
        assert(w.last() == rs.last());
        assert(w.drop_last() =~= seq![x] + rs.drop_last());
        lemma_frame_rev_snoc(rs.drop_last(), x, start, end);
        if start <= x.date <= end {
            assert(spec_frame_rev(w, start, end) =~= spec_frame_rev(rs, start, end).push(x));
        } else {
            assert(spec_frame_rev(w, start, end) =~= spec_frame_rev(rs, start, end));
        }
    }
}

/// Widening the window at its old end appends a matching record to
/// the per-item frame listing's tail.
proof fn lemma_frame_item_rev_snoc(rs: Seq<Record>, x: Record, item_id: i64, start: i64, end: i64)
    ensures
        spec_frame_item_rev(seq![x] + rs, item_id, start, end) == if x.item_id == item_id && start
            <= x.date <= end {
            spec_frame_item_rev(rs, item_id, start, end).push(x)
        } else {
            spec_frame_item_rev(rs, item_id, start, end)
        },
    decreases rs.len(),
{
    let w = seq![x] + rs;
    assert(spec_frame_item_rev(Seq::<Record>::empty(), item_id, start, end) == Seq::<
        Record,
    >::empty());
    if rs.len() == 0 {
        assert(w.last() == x);
        assert(w.drop_last() =~= Seq::<Record>::empty());
        if x.item_id == item_id && start <= x.date <= end {
            assert(spec_frame_item_rev(w, item_id, start, end) =~= spec_frame_item_rev(
                rs,
                item_id,
                start,
                end,
            ).push(x));
        }
    } else {
        assert(w.last() == rs.last());
        assert(w.drop_last() =~= seq![x] + rs.drop_last());
        lemma_frame_item_rev_snoc(rs.drop_last(), x, item_id, start, end);
        if x.item_id == item_id && start <= x.date <= end {
            assert(spec_frame_item_rev(w, item_id, start, end) =~= spec_frame_item_rev(
                rs,
                item_id,
                start,
                end,
            ).push(x));
        } else {
            assert(spec_frame_item_rev(w, item_id, start, end) =~= spec_frame_item_rev(
                rs,
                item_id,
                start,
                end,
            ));
        }
    }
}

/// Relies on chrono's `Utc::now`, read as a Unix timestamp, to date
/// the adjustment rows that edits and deletions append; nothing is
/// assumed of the clock's value.
#[verifier::external_body]
fn now_timestamp() -> i64 {
    chrono::Utc::now().timestamp()
}

} // verus!
