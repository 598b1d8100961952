use vstd::prelude::*;
use crate::errors::ErrorCode;
use crate::identity::Identity;

verus! {

/// One ledger record as a call sees it: whose it is, which program holds it, and how much
/// it holds.
#[derive(Clone, Copy, Debug, PartialEq, Eq)]
pub struct Record {
    pub key: Identity,
    pub owner: Identity,
    pub lamports: u64,
}

/// One payment out of the pool: to whom, and how much.
#[derive(Clone, Copy, Debug, PartialEq, Eq)]
pub struct Transfer {
    pub to: Identity,
    pub amount: u64,
}

/// What a series of payments adds up to.
pub open spec fn total_amount(transfers: Seq<Transfer>) -> nat
    decreases transfers.len(),
{
    if transfers.len() == 0 {
        0
    } else {
        total_amount(transfers.drop_last()) + transfers.last().amount as nat
    }
}

/// Two series of payments, one after the other, add up to the sum of what each adds up to.
pub proof fn lemma_total_amount_of_both(first: Seq<Transfer>, second: Seq<Transfer>)
    ensures
        total_amount(first + second) == total_amount(first) + total_amount(second),
    decreases second.len(),
{
    if second.len() == 0 {
        assert(first + second == first);
    } else {
        assert((first + second).drop_last() == first + second.drop_last());
        lemma_total_amount_of_both(first, second.drop_last());
    }
}

impl Record {
    /// Whether this record is a plain one: held by the system program and by no other.
    pub open spec fn is_plain(self) -> bool {
        self.owner.is_system_program()
    }

    /// Whether this record is the right one to pay `payee` into: the payee is somebody, the
    /// record is the payee's own, and it is plain.
    pub open spec fn receives_for(self, payee: Identity) -> bool {
        !payee.is_default() && self.key == payee && self.is_plain()
    }

    /// This record with `amount` more in it.
    pub open spec fn credited(self, amount: nat) -> Record
        recommends
            self.lamports + amount <= u64::MAX,
    {
        Record { lamports: (self.lamports + amount) as u64, ..self }
    }

    /// Tells whether this record is a plain one.
    pub fn check_plain(&self) -> (r: bool)
        ensures
            r == self.is_plain(),
    {
        let system = Identity::system_program();
        proof {
            if self.owner.is_system_program() {
                Identity::lemma_zero_is_unique(self.owner, system);
            }
        }
        self.owner == system
    }

    /// Tells whether this record is the right one to pay `payee` into.
    pub fn check_receives_for(&self, payee: &Identity) -> (r: bool)
        ensures
            r == self.receives_for(*payee),
    {
        !payee.check_default() && self.key == *payee && self.check_plain()
    }
}

/// Why a payment of `amount` out of a balance of `from` into a balance of `to` cannot be
/// made, if it cannot: the source holds too little, or the destination would overflow.
pub open spec fn pay_error(from: u64, to: u64, amount: u64) -> Option<ErrorCode> {
    if from < amount {
        Some(ErrorCode::InsufficientContractBalance)
    } else if to + amount > u64::MAX {
        Some(ErrorCode::LamportMathError)
    } else {
        None
    }
}

/// Moves `amount` from one balance to another, or changes neither.
pub fn pda_pay(from: &mut u64, to: &mut u64, amount: u64) -> (r: Result<(), ErrorCode>)
    ensures
        (match pay_error(*old(from), *old(to), amount) {
            Some(e) => r == Err::<(), ErrorCode>(e) && *final(from) == *old(from) && *final(to)
                == *old(to),
            None => r == Ok::<(), ErrorCode>(()) && *final(from) == *old(from) - amount
                && *final(to) == *old(to) + amount,
        }),
{
    let new_from_balance = match (*from).checked_sub(amount) {
        Some(balance) => balance,
        None => {
            return Err(ErrorCode::InsufficientContractBalance);
        },
    };
    let new_to_balance = match (*to).checked_add(amount) {
        Some(balance) => balance,
        None => {
            return Err(ErrorCode::LamportMathError);
        },
    };
    *from = new_from_balance;
    *to = new_to_balance;
    Ok(())
}

/// Whether there is one record for each identity, and each record is the right one to pay
/// the identity at its place into.
pub open spec fn all_receive(records: Seq<Record>, payees: Seq<Identity>) -> bool {
    &&& records.len() == payees.len()
    &&& forall|i: int| 0 <= i < records.len() ==> (#[trigger] records[i]).receives_for(payees[i])
}

/// Whether each record can take `amount` more.
pub open spec fn all_can_take(records: Seq<Record>, amount: nat) -> bool {
    forall|i: int| 0 <= i < records.len() ==> (#[trigger] records[i]).lamports + amount <= u64::MAX
}

/// The records with `amount` more in each.
pub open spec fn all_credited(records: Seq<Record>, amount: nat) -> Seq<Record> {
    Seq::new(records.len(), |i: int| records[i].credited(amount))
}

/// Tells whether there is one record for each identity, and each record is the right one to
/// pay the identity at its place into.
pub fn records_match(records: &Vec<Record>, payees: &Vec<Identity>) -> (r: bool)
    ensures
        r == all_receive(records@, payees@),
{
    if records.len() != payees.len() {
        return false;
    }
    let mut i: usize = 0;
    while i < records.len()
        invariant
            i <= records@.len(),
            records@.len() == payees@.len(),
            forall|k: int| 0 <= k < i ==> (#[trigger] records@[k]).receives_for(payees@[k]),
        decreases records@.len() - i,
    {
        if !records[i].check_receives_for(&payees[i]) {
            return false;
        }
        i += 1;
    }
    true
}

/// Pays `amount` out of the pool into each record, in their order, or changes nothing. The
/// pool holds enough for all of them, so only a record that cannot take the amount stops
/// the payments.
pub(crate) fn pay_each(pool: &mut u64, records: &mut Vec<Record>, amount: u64) -> (r: Result<(), ErrorCode>)
    requires
        amount * old(records)@.len() <= *old(pool),
    ensures
        all_can_take(old(records)@, amount as nat) ==> r == Ok::<(), ErrorCode>(()) && *final(pool)
            == *old(pool) - amount * old(records)@.len() && final(records)@ == all_credited(
            old(records)@,
            amount as nat,
        ),
        !all_can_take(old(records)@, amount as nat) ==> r == Err::<(), ErrorCode>(
            ErrorCode::LamportMathError,
        ) && *final(pool) == *old(pool) && final(records)@ == old(records)@,
{
    let count: usize = records.len();
    let mut pool_balance: u64 = *pool;
    let mut paid: Vec<Record> = Vec::new();
    let mut i: usize = 0;
    while i < count
        invariant
            i <= count,
            count == records@.len(),
            records@ == old(records)@,
            *pool == *old(pool),
            amount * count <= *pool,
            pool_balance == *pool - amount * i,
            paid@ == all_credited(records@.take(i as int), amount as nat),
            all_can_take(records@.take(i as int), amount as nat),
        decreases count - i,
    {
        let record = records[i];
        let mut balance: u64 = record.lamports;
        proof {
            assert(amount * (i + 1) <= amount * count) by (nonlinear_arith)
                requires
                    i + 1 <= count,
                    amount >= 0,
            ;
            assert(amount * (i + 1) == amount * i + amount) by (nonlinear_arith);
        }
        match pda_pay(&mut pool_balance, &mut balance, amount) {
            Err(e) => {
                assert(records@[i as int].lamports + amount > u64::MAX);
                return Err(e);
            },
            Ok(()) => {},
        }
        proof {
            let before = records@.take(i as int);
            let after = records@.take(i + 1);
            assert(after == before.push(record));
            assert forall|k: int| 0 <= k < after.len() implies (#[trigger] after[k]).lamports
                + amount <= u64::MAX by {
                if k < i {
                    assert(before[k] == after[k]);
                }
            }
        }
        paid.push(Record { key: record.key, owner: record.owner, lamports: balance });
        i += 1;
    }
    assert(records@.take(count as int) == records@);
    *pool = pool_balance;
    *records = paid;
    Ok(())
}

} // verus!
