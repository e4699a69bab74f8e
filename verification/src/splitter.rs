//! Divides a released payment between the parties to a trade.
//!
//! The parts sum to exactly the whole. Integer division leaves a remainder,
//! and the remainder is paid to the last share rather than dropped or left
//! behind. A split is written once, by the coordinator, and read by anyone.

use vstd::prelude::*;
use crate::common::{Address, Invocation, TradeId, Transfer};
use crate::table::Table;

verus! {

/// The whole, in basis points. The shares of a split total exactly this.
pub const BPS: i128 = 10_000;

/// Why a splitter operation was refused.
#[derive(Clone, Copy, Debug, PartialEq, Eq, Structural)]
pub enum Error {
    NoShares,
    SharesDoNotSumToWhole,
    ShareNotPositive,
    AlreadyConfigured,
    NotConfigured,
    AmountNotPositive,
}

/// One party's part of a split.
#[derive(Clone, Copy, Debug, PartialEq, Eq)]
pub struct Share {
    pub party: Address,
    /// Basis points. All shares for a trade must total exactly 10,000.
    pub bps: i128,
}

/// The basis points of the first `k` shares, added up.
pub open spec fn bps_upto(s: Seq<Share>, k: int) -> int
    decreases k,
{
    if k <= 0 {
        0
    } else {
        bps_upto(s, k - 1) + s[k - 1].bps
    }
}

/// Whether every share is above zero.
pub open spec fn all_positive(s: Seq<Share>) -> bool {
    forall|i: int| 0 <= i < s.len() ==> #[trigger] s[i].bps > 0
}

/// A split that can be recorded: at least one share, every share above zero,
/// and the shares totalling exactly the whole.
pub open spec fn valid_split(s: Seq<Share>) -> bool {
    &&& s.len() > 0
    &&& all_positive(s)
    &&& bps_upto(s, s.len() as int) == BPS
}

/// Adding up the shares, in order, up to the first that is not above zero,
/// never leaves the range of an `i128`.
pub open spec fn total_fits(s: Seq<Share>) -> bool {
    forall|k: int|
        0 <= k <= s.len() && (forall|j: int| 0 <= j < k ==> #[trigger] s[j].bps > 0) ==> #[trigger] bps_upto(s, k)
            <= i128::MAX
}

/// Why the split `s` cannot be recorded, if it cannot.
pub open spec fn split_refusal(s: Seq<Share>) -> Option<Error> {
    if s.len() == 0 {
        Some(Error::NoShares)
    } else if !all_positive(s) {
        Some(Error::ShareNotPositive)
    } else if bps_upto(s, s.len() as int) != BPS {
        Some(Error::SharesDoNotSumToWhole)
    } else {
        None
    }
}

/// Why recording the split `s` is refused, if it is; `taken` says whether the
/// trade already has a split.
pub open spec fn configure_refusal(taken: bool, s: Seq<Share>) -> Option<Error> {
    if s.len() == 0 {
        Some(Error::NoShares)
    } else if taken {
        Some(Error::AlreadyConfigured)
    } else {
        split_refusal(s)
    }
}

/// `amount` times `bps` basis points, rounded down.
pub open spec fn floor_part(amount: int, bps: int) -> int {
    amount * bps / 10_000
}

/// What the first `k` shares are paid, each rounded down.
pub open spec fn paid_before(s: Seq<Share>, amount: int, k: int) -> int
    decreases k,
{
    if k <= 0 {
        0
    } else {
        paid_before(s, amount, k - 1) + floor_part(amount, s[k - 1].bps as int)
    }
}

/// The part of `amount` that share `i` is paid: its basis points rounded down,
/// and for the last share whatever the others leave.
pub open spec fn part(s: Seq<Share>, amount: int, i: int) -> int {
    if i == s.len() - 1 {
        amount - paid_before(s, amount, i)
    } else {
        floor_part(amount, s[i].bps as int)
    }
}

/// The payments made for the first `k` shares: one for each share whose part
/// is above zero, in the order of the shares.
pub open spec fn payouts_upto(s: Seq<Share>, token: Address, from: Address, amount: int, k: int) -> Seq<Transfer>
    decreases k,
{
    if k <= 0 {
        Seq::empty()
    } else {
        let before = payouts_upto(s, token, from, amount, k - 1);
        let p = part(s, amount, k - 1);
        if p > 0 {
            before.push(Transfer { token, from, to: s[k - 1].party, amount: p as i128 })
        } else {
            before
        }
    }
}

/// The payments that divide `amount` of `token` from `from` by the split `s`.
pub open spec fn payouts(s: Seq<Share>, token: Address, from: Address, amount: int) -> Seq<Transfer> {
    payouts_upto(s, token, from, amount, s.len() as int)
}

/// Multiplying `amount` by the basis points of every share but the last stays
/// within the range of an `i128`.
pub open spec fn distribution_fits(s: Seq<Share>, amount: int) -> bool {
    forall|i: int| 0 <= i < s.len() - 1 ==> #[trigger] (amount * s[i].bps) <= i128::MAX
}

/// The sum of the amounts of `t`.
pub open spec fn transferred(t: Seq<Transfer>) -> int
    decreases t.len(),
{
    if t.len() == 0 {
        0
    } else {
        transferred(t.drop_last()) + t.last().amount
    }
}

/// Checks that `shares` can be recorded as a split, in the order the
/// contract checks it: present at all, each share above zero, the total
/// exactly the whole.
pub fn check_split(shares: &Vec<Share>) -> (r: Result<(), Error>)
    requires
        total_fits(shares@),
    ensures
        match split_refusal(shares@) {
            Some(e) => r == Err::<(), Error>(e),
            None => r == Ok::<(), Error>(()),
        },
{
    if shares.len() == 0 {
        return Err(Error::NoShares);
    }
    let mut total: i128 = 0;
    let mut i: usize = 0;
    while i < shares.len()
        invariant
            i <= shares@.len(),
            total_fits(shares@),
            forall|j: int| 0 <= j < i ==> #[trigger] shares@[j].bps > 0,
            total == bps_upto(shares@, i as int),
        decreases shares@.len() - i,
    {
        let bps = shares[i].bps;
        if bps <= 0 {
            return Err(Error::ShareNotPositive);
        }
        assert(bps_upto(shares@, i + 1) <= i128::MAX);
        total = total + bps;
        i = i + 1;
    }
    if total != BPS {
        return Err(Error::SharesDoNotSumToWhole);
    }
    Ok(())
}

/// Checks whether the sums that recording `shares` adds up stay within an
/// `i128`, which recording them needs.
pub fn check_total_fits(shares: &Vec<Share>) -> (r: bool)
    ensures
        r == total_fits(shares@),
{
    let mut total: i128 = 0;
    let mut i: usize = 0;
    while i < shares.len()
        invariant
            i <= shares@.len(),
            forall|j: int| 0 <= j < i ==> #[trigger] shares@[j].bps > 0,
            forall|k: int| 0 <= k <= i ==> #[trigger] bps_upto(shares@, k) <= i128::MAX,
            total == bps_upto(shares@, i as int),
        decreases shares@.len() - i,
    {
        let bps = shares[i].bps;
        if bps <= 0 {
            proof {
                assert forall|k: int|
                    0 <= k <= shares@.len() && (forall|j: int| 0 <= j < k ==> #[trigger] shares@[j].bps > 0)
                    implies #[trigger] bps_upto(shares@, k) <= i128::MAX by {
                    if k > i {
                        assert(shares@[i as int].bps > 0);
                    }
                }
            }
            return true;
        }
        if total > i128::MAX - bps {
            proof {
                assert(bps_upto(shares@, i + 1) > i128::MAX);
            }
            return false;
        }
        total = total + bps;
        i = i + 1;
    }
    true
}

proof fn lemma_bps_upto_bounds(s: Seq<Share>, k: int)
    requires
        valid_split(s),
        0 <= k <= s.len(),
    ensures
        0 <= bps_upto(s, k),
        k < s.len() ==> bps_upto(s, k) + s[s.len() - 1].bps <= BPS,
    decreases s.len() - k,
{
    lemma_bps_upto_nonneg(s, k);
    if k < s.len() {
        lemma_bps_upto_bounds(s, k + 1);
        assert(s[k].bps > 0);
        if k + 1 < s.len() {
            assert(s[k + 1].bps > 0);
        }
    }
}

proof fn lemma_bps_upto_nonneg(s: Seq<Share>, k: int)
    requires
        all_positive(s),
        0 <= k <= s.len(),
    ensures
        0 <= bps_upto(s, k),
    decreases k,
{
    if k > 0 {
        lemma_bps_upto_nonneg(s, k - 1);
        assert(s[k - 1].bps > 0);
    }
}

proof fn lemma_floor_part_bounds(amount: int, bps: int)
    requires
        amount > 0,
        bps > 0,
    ensures
        0 <= floor_part(amount, bps),
        10_000 * floor_part(amount, bps) <= amount * bps,
{
    assert(amount * bps > 0) by (nonlinear_arith)
        requires
            amount > 0,
            bps > 0,
    ;
}

/// What is paid before share `k` is never below zero, and is at most what
/// those shares are worth unrounded.
proof fn lemma_paid_before_bounds(s: Seq<Share>, amount: int, k: int)
    requires
        all_positive(s),
        amount > 0,
        0 <= k <= s.len(),
    ensures
        0 <= paid_before(s, amount, k),
        10_000 * paid_before(s, amount, k) <= amount * bps_upto(s, k),
    decreases k,
{
    if k > 0 {
        lemma_paid_before_bounds(s, amount, k - 1);
        let b = s[k - 1].bps as int;
        assert(b > 0);
        lemma_floor_part_bounds(amount, b);
        let u = bps_upto(s, k - 1);
        assert(amount * (u + b) == amount * u + amount * b) by (nonlinear_arith);
    }
}

/// Every part is above zero or zero, the last above zero; the parts before
/// the last add up to what is paid before it, and the last part is at least
/// its share of the amount unrounded.
proof fn lemma_part_bounds(s: Seq<Share>, amount: int, i: int)
    requires
        valid_split(s),
        amount > 0,
        0 <= i < s.len(),
    ensures
        0 <= part(s, amount, i) <= amount,
        i == s.len() - 1 ==> part(s, amount, i) > 0,
        i == s.len() - 1 ==> 10_000 * part(s, amount, i) >= amount * s[i].bps,
        i < s.len() - 1 ==> 0 <= paid_before(s, amount, i + 1) <= amount,
        0 <= paid_before(s, amount, i) <= amount,
{
    let n = s.len() as int;
    lemma_bps_upto_bounds(s, i);
    lemma_paid_before_bounds(s, amount, i);
    let u = bps_upto(s, i);
    let pb = paid_before(s, amount, i);
    let bl = s[n - 1].bps as int;
    assert(bl > 0);
    assert(amount * u <= amount * 10_000) by (nonlinear_arith)
        requires
            amount > 0,
            u <= 10_000,
    ;
    if i == n - 1 {
        assert(u + bl == 10_000);
        assert(amount * u + amount * bl == amount * 10_000) by (nonlinear_arith)
            requires
                u + bl == 10_000,
        ;
        assert(amount * bl > 0) by (nonlinear_arith)
            requires
                amount > 0,
                bl > 0,
        ;
    } else {
        lemma_bps_upto_bounds(s, i + 1);
        lemma_paid_before_bounds(s, amount, i + 1);
        let u1 = bps_upto(s, i + 1);
        assert(amount * u1 <= amount * 10_000) by (nonlinear_arith)
            requires
                amount > 0,
                u1 <= 10_000,
        ;
        lemma_floor_part_bounds(amount, s[i].bps as int);
    }
}

/// The payments for the first `k` shares add up to what those shares are
/// paid; all of them together add up to the whole amount.
proof fn lemma_transferred_upto(s: Seq<Share>, token: Address, from: Address, amount: int, k: int)
    requires
        valid_split(s),
        amount > 0,
        amount <= i128::MAX,
        0 <= k <= s.len(),
    ensures
        k < s.len() ==> transferred(payouts_upto(s, token, from, amount, k)) == paid_before(s, amount, k),
        k == s.len() ==> transferred(payouts_upto(s, token, from, amount, k)) == amount,
        forall|j: int| 0 <= j < payouts_upto(s, token, from, amount, k).len()
            ==> #[trigger] payouts_upto(s, token, from, amount, k)[j].amount > 0,
    decreases k,
{
    if k > 0 {
        lemma_transferred_upto(s, token, from, amount, k - 1);
        lemma_part_bounds(s, amount, k - 1);
        let before = payouts_upto(s, token, from, amount, k - 1);
        let p = part(s, amount, k - 1);
        if p > 0 {
            let t = Transfer { token, from, to: s[k - 1].party, amount: p as i128 };
            assert(before.push(t).drop_last() =~= before);
        }
    }
}

/// Divides `amount` of `token` from `from` by the split `shares`: each share
/// is paid its basis points of the amount rounded down, the last share
/// whatever the others leave, and a part of zero is not paid at all.
pub fn divide(shares: &Vec<Share>, token: Address, from: Address, amount: i128) -> (r: Vec<Transfer>)
    requires
        valid_split(shares@),
        amount > 0,
        distribution_fits(shares@, amount as int),
    ensures
        r@ == payouts(shares@, token, from, amount as int),
{
    let n = shares.len();
    let last = n - 1;
    let mut paid: i128 = 0;
    let mut out: Vec<Transfer> = Vec::new();
    let mut i: usize = 0;
    while i < n
        invariant
            n == shares@.len(),
            last == n - 1,
            i <= n,
            valid_split(shares@),
            amount > 0,
            distribution_fits(shares@, amount as int),
            i < n ==> paid == paid_before(shares@, amount as int, i as int),
            out@ == payouts_upto(shares@, token, from, amount as int, i as int),
        decreases n - i,
    {
        proof {
            lemma_part_bounds(shares@, amount as int, i as int);
        }
        let bps = shares[i].bps;
        let portion: i128 = if i == last {
            amount - paid
        } else {
            assert(shares@[i as int].bps > 0);
            assert(amount * bps <= i128::MAX);
            assert(amount * bps >= 0) by (nonlinear_arith)
                requires
                    amount > 0,
                    bps > 0,
            ;
            amount * bps / BPS
        };
        assert(portion == part(shares@, amount as int, i as int));
        if portion > 0 {
            out.push(Transfer { token, from, to: shares[i].party, amount: portion });
        }
        if i < last {
            paid = paid + portion;
        }
        i = i + 1;
    }
    out
}

/// Checks whether multiplying `amount` by the basis points of every share but
/// the last stays within an `i128`, which distributing it needs.
pub fn check_distribution_fits(shares: &Vec<Share>, amount: i128) -> (r: bool)
    requires
        amount > 0,
    ensures
        r == distribution_fits(shares@, amount as int),
{
    if shares.len() == 0 {
        return true;
    }
    let last = shares.len() - 1;
    let mut i: usize = 0;
    while i < last
        invariant
            last == shares@.len() - 1,
            i <= last,
            amount > 0,
            forall|j: int| 0 <= j < i ==> #[trigger] (amount * shares@[j].bps) <= i128::MAX,
        decreases shares@.len() - i,
    {
        let bps = shares[i].bps;
        if bps > 0 && amount > i128::MAX / bps {
            proof {
                assert(amount * bps > i128::MAX) by (nonlinear_arith)
                    requires
                        bps > 0,
                        amount > i128::MAX / bps,
                ;
                assert(amount * shares@[i as int].bps > i128::MAX);
            }
            return false;
        }
        proof {
            if bps > 0 {
                assert(amount * bps <= i128::MAX) by (nonlinear_arith)
                    requires
                        bps > 0,
                        amount > 0,
                        amount <= i128::MAX / bps,
                ;
            } else {
                assert(amount * bps <= 0) by (nonlinear_arith)
                    requires
                        bps <= 0,
                        amount > 0,
                ;
            }
        }
        i = i + 1;
    }
    true
}

/// Decides the recording of `shares` as a trade's split; `taken` says whether
/// the trade already has one. The coordinator's signature is demanded first,
/// whatever follows.
pub fn decide_configure(coordinator: Address, taken: bool, shares: &Vec<Share>) -> (r: Invocation<(), Error>)
    requires
        total_fits(shares@),
    ensures
        r.signers@ == seq![coordinator],
        match configure_refusal(taken, shares@) {
            Some(e) => r.result == Err::<(), Error>(e),
            None => r.result == Ok::<(), Error>(()),
        },
{
    let mut signers = Vec::new();
    signers.push(coordinator);
    if shares.len() == 0 {
        return Invocation { signers, result: Err(Error::NoShares) };
    }
    if taken {
        return Invocation { signers, result: Err(Error::AlreadyConfigured) };
    }
    Invocation { signers, result: check_split(shares) }
}

/// Decides the distribution of `amount` of `token` from `from` by the trade's
/// split, `split` (none when the trade has no split). The signature of `from`
/// is demanded once the amount and the split have been checked. On success:
/// the payments, whose amounts add up to exactly `amount`.
pub fn decide_distribute(split: Option<&Vec<Share>>, token: Address, from: Address, amount: i128) -> (r: Invocation<Vec<Transfer>, Error>)
    requires
        amount > 0 && split is Some ==> valid_split(split.unwrap()@) && distribution_fits(split.unwrap()@, amount as int),
    ensures
        amount <= 0 ==> r.signers@ == Seq::<Address>::empty() && r.result == Err::<Vec<Transfer>, Error>(Error::AmountNotPositive),
        amount > 0 && split is None ==> r.signers@ == Seq::<Address>::empty() && r.result == Err::<Vec<Transfer>, Error>(Error::NotConfigured),
        amount > 0 && split is Some ==> {
            &&& r.signers@ == seq![from]
            &&& r.result is Ok
            &&& r.result.unwrap()@ == payouts(split.unwrap()@, token, from, amount as int)
        },
{
    if amount <= 0 {
        return Invocation { signers: Vec::new(), result: Err(Error::AmountNotPositive) };
    }
    match split {
        None => Invocation { signers: Vec::new(), result: Err(Error::NotConfigured) },
        Some(shares) => {
            let mut signers = Vec::new();
            signers.push(from);
            Invocation { signers, result: Ok(divide(shares, token, from, amount)) }
        },
    }
}

fn copy_shares(v: &Vec<Share>) -> (r: Vec<Share>)
    ensures
        r@ == v@,
{
    let mut r: Vec<Share> = Vec::new();
    let mut i: usize = 0;
    while i < v.len()
        invariant
            i <= v@.len(),
            r@ == v@.take(i as int),
        decreases v@.len() - i,
    {
        r.push(v[i]);
        proof {
            assert(v@.take(i + 1) =~= v@.take(i as int).push(v@[i as int]));
        }
        i = i + 1;
    }
    assert(v@.take(v@.len() as int) =~= v@);
    r
}

/// The splitter contract: its coordinator, set when it is deployed, and the
/// split recorded for each trade.
pub struct Splitter {
    coordinator: Address,
    splits: Table<Vec<Share>>,
}

/// What a [`Splitter`] holds.
pub struct SplitterView {
    pub coordinator: Address,
    pub splits: Map<TradeId, Seq<Share>>,
}

impl SplitterView {
    /// Every recorded split can be recorded.
    pub open spec fn splits_valid(self) -> bool {
        forall|k: TradeId| #[trigger] self.splits.contains_key(k) ==> valid_split(self.splits[k])
    }

    /// Recording `s` as the split of trade `id`: the splitter after it, the
    /// signatures demanded, and the result.
    pub open spec fn configure(self, id: TradeId, s: Seq<Share>) -> (Self, Seq<Address>, Result<(), Error>) {
        match configure_refusal(self.splits.contains_key(id), s) {
            Some(e) => (self, seq![self.coordinator], Err(e)),
            None => (SplitterView { splits: self.splits.insert(id, s), ..self }, seq![self.coordinator], Ok(())),
        }
    }

    /// Reading the split of trade `id`.
    pub open spec fn shares(self, id: TradeId) -> Result<Seq<Share>, Error> {
        if self.splits.contains_key(id) {
            Ok(self.splits[id])
        } else {
            Err(Error::NotConfigured)
        }
    }

    /// Distributing `amount` of `token` from `from` by the split of trade
    /// `id`: the signatures demanded, and the payments.
    pub open spec fn distribute(self, id: TradeId, token: Address, from: Address, amount: i128) -> (Seq<Address>, Result<Seq<Transfer>, Error>) {
        if amount <= 0 {
            (Seq::empty(), Err(Error::AmountNotPositive))
        } else if !self.splits.contains_key(id) {
            (Seq::empty(), Err(Error::NotConfigured))
        } else {
            (seq![from], Ok(payouts(self.splits[id], token, from, amount as int)))
        }
    }
}

impl View for Splitter {
    type V = SplitterView;

    closed spec fn view(&self) -> SplitterView {
        SplitterView { coordinator: self.coordinator, splits: self.splits@.map_values(|v: Vec<Share>| v@) }
    }
}

impl Splitter {
    #[verifier::type_invariant]
    closed spec fn recorded_splits_valid(self) -> bool {
        forall|k: TradeId| #[trigger] self.splits@.contains_key(k) ==> valid_split(self.splits@[k]@)
    }

    /// A newly deployed splitter whose splits `coordinator` records.
    pub fn new(coordinator: Address) -> (r: Self)
        ensures
            r@ == (SplitterView { coordinator, splits: Map::empty() }),
            r@.splits_valid(),
    {
        let r = Splitter { coordinator, splits: Table::new() };
        assert(r@.splits =~= Map::<TradeId, Seq<Share>>::empty());
        r
    }

    /// The address whose signature recording a split demands.
    pub fn coordinator(&self) -> (a: Address)
        ensures
            a == self@.coordinator,
            self@.splits_valid(),
    {
        proof {
            use_type_invariant(self);
        }
        self.coordinator
    }

    /// Records how trade `trade_id` divides. Set once per trade, so the split
    /// cannot be rewritten after the parties have agreed to it.
    pub fn configure(&mut self, trade_id: TradeId, shares: Vec<Share>) -> (r: Invocation<(), Error>)
        requires
            total_fits(shares@),
        ensures
            ({
                let (after, signers, result) = old(self)@.configure(trade_id, shares@);
                &&& final(self)@ == after
                &&& r.signers@ == signers
                &&& r.result == result
            }),
            final(self)@.splits_valid(),
    {
        proof {
            use_type_invariant(&*self);
        }
        let taken = self.splits.contains_key(&trade_id);
        let step = decide_configure(self.coordinator, taken, &shares);
        if step.result.is_ok() {
            let ghost before = self.splits@;
            let ghost s = shares@;
            let mut splits = Table::new();
            std::mem::swap(&mut splits, &mut self.splits);
            splits.insert(trade_id, shares);
            proof {
                assert forall|k: TradeId| #[trigger] splits@.contains_key(k) implies valid_split(splits@[k]@) by {
                    if k != trade_id {
                        assert(before.contains_key(k));
                    }
                }
                assert(splits@.map_values(|v: Vec<Share>| v@) =~= before.map_values(|v: Vec<Share>| v@).insert(trade_id, s));
            }
            self.splits = splits;
        }
        proof {
            use_type_invariant(&*self);
        }
        step
    }

    /// The split recorded for trade `trade_id`.
    pub fn shares(&self, trade_id: TradeId) -> (r: Result<Vec<Share>, Error>)
        ensures
            match r {
                Ok(v) => self@.shares(trade_id) == Ok::<Seq<Share>, Error>(v@),
                Err(e) => self@.shares(trade_id) == Err::<Seq<Share>, Error>(e),
            },
            self@.splits_valid(),
    {
        proof {
            use_type_invariant(self);
        }
        match self.splits.get(&trade_id) {
            Some(v) => Ok(copy_shares(v)),
            None => Err(Error::NotConfigured),
        }
    }

    /// Pays every party their share of `amount` of `token` from `from`. The
    /// rounding remainder goes to the last share, so every unit is accounted
    /// for and none stays behind.
    pub fn distribute(&self, trade_id: TradeId, token_id: Address, from: Address, amount: i128) -> (r: Invocation<Vec<Transfer>, Error>)
        requires
            amount > 0 && self@.splits.contains_key(trade_id) ==> distribution_fits(self@.splits[trade_id], amount as int),
        ensures
            ({
                let (signers, result) = self@.distribute(trade_id, token_id, from, amount);
                &&& r.signers@ == signers
                &&& match r.result {
                    Ok(v) => result == Ok::<Seq<Transfer>, Error>(v@),
                    Err(e) => result == Err::<Seq<Transfer>, Error>(e),
                }
            }),
            self@.splits_valid(),
    {
        proof {
            use_type_invariant(self);
        }
        let split = self.splits.get(&trade_id);
        decide_distribute(split, token_id, from, amount)
    }
}

/// The parts sum to exactly the whole. Distributing a positive amount by a
/// split that can be recorded pays out exactly that amount, all of it from
/// the payer and in the token named, in payments that are each above zero.
pub proof fn law_parts_sum_to_whole(s: Seq<Share>, token: Address, from: Address, amount: i128)
    requires
        valid_split(s),
        amount > 0,
    ensures
        transferred(payouts(s, token, from, amount as int)) == amount,
        forall|j: int| 0 <= j < payouts(s, token, from, amount as int).len() ==> {
            let t = #[trigger] payouts(s, token, from, amount as int)[j];
            &&& t.amount > 0
            &&& t.token == token
            &&& t.from == from
        },
{
    lemma_transferred_upto(s, token, from, amount as int, s.len() as int);
    lemma_payouts_from(s, token, from, amount as int, s.len() as int);
}

proof fn lemma_payouts_from(s: Seq<Share>, token: Address, from: Address, amount: int, k: int)
    ensures
        forall|j: int| 0 <= j < payouts_upto(s, token, from, amount, k).len() ==> {
            let t = #[trigger] payouts_upto(s, token, from, amount, k)[j];
            &&& t.token == token
            &&& t.from == from
        },
    decreases k,
{
    if k > 0 {
        lemma_payouts_from(s, token, from, amount, k - 1);
        let before = payouts_upto(s, token, from, amount, k - 1);
        let after = payouts_upto(s, token, from, amount, k);
        assert forall|j: int| 0 <= j < after.len() implies after[j].token == token && after[j].from == from by {
            if j < before.len() {
                assert(after[j] == before[j]);
            }
        }
    }
}

/// The rounding remainder is paid, not dropped, and it goes to the last
/// share. Every share but the last is paid its basis points of the amount
/// rounded down; the last is paid what the others leave, which is at least
/// its own basis points of the amount and always above zero.
pub proof fn law_remainder_goes_to_last_share(s: Seq<Share>, amount: i128, i: int)
    requires
        valid_split(s),
        amount > 0,
        0 <= i < s.len(),
    ensures
        i < s.len() - 1 ==> {
            &&& 10_000 * part(s, amount as int, i) <= amount * s[i].bps
            &&& amount * s[i].bps < 10_000 * (part(s, amount as int, i) + 1)
        },
        i == s.len() - 1 ==> {
            &&& part(s, amount as int, i) > 0
            &&& 10_000 * part(s, amount as int, i) >= amount * s[i].bps
            &&& part(s, amount as int, i) == amount - paid_before(s, amount as int, i)
        },
{
    lemma_part_bounds(s, amount as int, i);
}

/// A split can be recorded exactly when it has at least one share, every
/// share is above zero, the shares total exactly the whole and the trade has
/// no split yet; once recorded it reads back as given. Every split a splitter
/// holds can be recorded, and recording keeps it so.
pub proof fn law_only_whole_splits_recorded(v: SplitterView, id: TradeId, s: Seq<Share>)
    ensures
        (v.configure(id, s).2 is Ok) <==> (s.len() > 0 && all_positive(s)
            && bps_upto(s, s.len() as int) == BPS && !v.splits.contains_key(id)),
        v.configure(id, s).2 is Ok ==> v.configure(id, s).0.shares(id) == Ok::<Seq<Share>, Error>(s),
        v.splits_valid() ==> v.configure(id, s).0.splits_valid(),
{
}

/// A recorded split cannot be rewritten: recording another for the same trade
/// is refused as already configured and changes nothing.
pub proof fn law_split_written_once(v: SplitterView, id: TradeId, s: Seq<Share>)
    requires
        v.splits.contains_key(id),
        s.len() > 0,
    ensures
        v.configure(id, s).2 == Err::<(), Error>(Error::AlreadyConfigured),
        v.configure(id, s).0 == v,
{
}

/// Recording a split demands the coordinator's signature, whatever follows;
/// distributing demands the payer's signature when it pays, and none when it
/// is refused. Distributing changes no recorded split, and pays out exactly
/// the amount given.
pub proof fn law_distribution_signers_and_total(v: SplitterView, id: TradeId, s: Seq<Share>, token: Address, from: Address, amount: i128)
    requires
        v.splits_valid(),
    ensures
        v.configure(id, s).1 == seq![v.coordinator],
        v.distribute(id, token, from, amount).0 == (if v.distribute(id, token, from, amount).1 is Ok {
            seq![from]
        } else {
            Seq::<Address>::empty()
        }),
        (v.distribute(id, token, from, amount).1 is Ok) <==> (amount > 0 && v.splits.contains_key(id)),
        v.distribute(id, token, from, amount).1 is Ok ==> transferred(v.distribute(id, token, from, amount).1.unwrap()) == amount,
{
    if amount > 0 && v.splits.contains_key(id) {
        law_parts_sum_to_whole(v.splits[id], token, from, amount);
    }
}

/// How many of the first `i` shares have a part above zero.
pub open spec fn paid_shares_before(s: Seq<Share>, amount: int, i: int) -> nat
    decreases i,
{
    if i <= 0 {
        0
    } else {
        paid_shares_before(s, amount, i - 1) + (if part(s, amount, i - 1) > 0 { 1nat } else { 0nat })
    }
}

/// Each payment goes to the party of the share it pays, in the order of the
/// shares: there is one payment for each share whose part is above zero, and
/// the payment for share `i` is made to `s[i].party`, of exactly its part, in
/// the token named and from the payer.
pub proof fn law_each_share_paid_to_its_party(s: Seq<Share>, token: Address, from: Address, amount: i128)
    ensures
        payouts(s, token, from, amount as int).len() == paid_shares_before(s, amount as int, s.len() as int),
        forall|i: int| 0 <= i < s.len() && #[trigger] part(s, amount as int, i) > 0 ==> {
            let t = payouts(s, token, from, amount as int)[paid_shares_before(s, amount as int, i) as int];
            &&& paid_shares_before(s, amount as int, i) < payouts(s, token, from, amount as int).len()
            &&& t.to == s[i].party
            &&& t.amount == part(s, amount as int, i) as i128
            &&& t.token == token
            &&& t.from == from
        },
{
    lemma_payouts_index(s, token, from, amount as int, s.len() as int);
    assert forall|i: int| 0 <= i < s.len() && #[trigger] part(s, amount as int, i) > 0 implies
        paid_shares_before(s, amount as int, i) < paid_shares_before(s, amount as int, s.len() as int) by {
        lemma_paid_shares_monotone(s, amount as int, i + 1, s.len() as int);
    }
}

proof fn lemma_paid_shares_monotone(s: Seq<Share>, amount: int, i: int, k: int)
    requires
        0 <= i <= k,
    ensures
        paid_shares_before(s, amount, i) <= paid_shares_before(s, amount, k),
    decreases k - i,
{
    if i < k {
        lemma_paid_shares_monotone(s, amount, i, k - 1);
    }
}

proof fn lemma_payouts_index(s: Seq<Share>, token: Address, from: Address, amount: int, k: int)
    requires
        0 <= k <= s.len(),
    ensures
        payouts_upto(s, token, from, amount, k).len() == paid_shares_before(s, amount, k),
        forall|i: int| 0 <= i < k && #[trigger] part(s, amount, i) > 0 ==> {
            let t = payouts_upto(s, token, from, amount, k)[paid_shares_before(s, amount, i) as int];
            &&& t.to == s[i].party
            &&& t.amount == part(s, amount, i) as i128
            &&& t.token == token
            &&& t.from == from
        },
    decreases k,
{
    if k > 0 {
        lemma_payouts_index(s, token, from, amount, k - 1);
        let before = payouts_upto(s, token, from, amount, k - 1);
        let after = payouts_upto(s, token, from, amount, k);
        assert forall|i: int| 0 <= i < k && #[trigger] part(s, amount, i) > 0 implies {
            let t = after[paid_shares_before(s, amount, i) as int];
            &&& t.to == s[i].party
            &&& t.amount == part(s, amount, i) as i128
            &&& t.token == token
            &&& t.from == from
        } by {
            if i < k - 1 {
                lemma_paid_shares_monotone(s, amount, i + 1, k - 1);
                assert(after[paid_shares_before(s, amount, i) as int] == before[paid_shares_before(s, amount, i) as int]);
            }
        }
    }
}

} // verus!
