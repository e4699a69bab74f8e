//! Holds a buyer's payment against one trade until delivery is verified.
//!
//! The destination is fixed when the escrow is created. Nothing afterwards can
//! change it: a compromised verifier can stall a release or let the deadline
//! pass, but has no way to send the money anywhere else. Once the deadline has
//! passed, anyone can return the money to the buyer.

use vstd::prelude::*;
use crate::common::{Address, Context, Invocation, TradeId, Transfer};
use crate::table::Table;

verus! {

/// Why an escrow operation was refused.
#[derive(Clone, Copy, Debug, PartialEq, Eq, Structural)]
pub enum Error {
    /// Not returned: the verifier is set once, when the escrow is deployed.
    AlreadyInitialised,
    /// Not returned: an escrow always has its verifier.
    NotInitialised,
    TradeExists,
    NoSuchTrade,
    NotFunded,
    DeadlineNotReached,
    DeadlineInPast,
    AmountNotPositive,
    DeadlineTooFar,
}

/// Where a trade stands. `Funded` moves to `Released` or to `Refunded`, and
/// nothing else ever happens to it.
#[derive(Clone, Copy, Debug, PartialEq, Eq, Structural)]
pub enum Status {
    Funded,
    Released,
    Refunded,
}

/// One escrowed trade.
#[derive(Clone, Copy, Debug, PartialEq, Eq)]
pub struct Trade {
    pub buyer: Address,
    pub destination: Address,
    pub token: Address,
    pub amount: i128,
    pub deadline: u64,
    pub status: Status,
}

/// Seconds in a day.
pub const DAY_SECONDS: u64 = 86_400;

/// How long a trade's record is kept alive without being touched, in seconds.
/// A deadline further out than this from creation is refused, since the record
/// could be archived before the deadline came.
pub const RECORD_LIFETIME: u64 = 180 * DAY_SECONDS;

/// The refusal, if any, of creating an escrow at time `now`, where `taken`
/// says whether the trade id already holds one.
pub open spec fn create_refusal(now: u64, taken: bool, amount: i128, deadline: u64) -> Option<Error> {
    if amount <= 0 {
        Some(Error::AmountNotPositive)
    } else if deadline <= now {
        Some(Error::DeadlineInPast)
    } else if deadline - now > RECORD_LIFETIME {
        Some(Error::DeadlineTooFar)
    } else if taken {
        Some(Error::TradeExists)
    } else {
        None
    }
}

/// The refusal, if any, of releasing the trade whose record is `record`.
pub open spec fn release_refusal(record: Option<Trade>) -> Option<Error> {
    match record {
        None => Some(Error::NoSuchTrade),
        Some(t) => if t.status != Status::Funded {
            Some(Error::NotFunded)
        } else {
            None
        },
    }
}

/// The refusal, if any, of refunding at time `now` the trade whose record is
/// `record`.
pub open spec fn refund_refusal(now: u64, record: Option<Trade>) -> Option<Error> {
    match record {
        None => Some(Error::NoSuchTrade),
        Some(t) => if t.status != Status::Funded {
            Some(Error::NotFunded)
        } else if now < t.deadline {
            Some(Error::DeadlineNotReached)
        } else {
            None
        },
    }
}

/// `t` with its status set to `status`; every term of the trade kept.
pub open spec fn with_status(t: Trade, status: Status) -> Trade {
    Trade { status, ..t }
}

/// The record of a newly funded escrow.
pub open spec fn funded(buyer: Address, destination: Address, token: Address, amount: i128, deadline: u64) -> Trade {
    Trade { buyer, destination, token, amount, deadline, status: Status::Funded }
}

/// Decides the creation of an escrow at the trade id; `taken` says whether
/// the id already holds one. On success: the record to keep, and the payment
/// from the buyer into the contract. The buyer's signature is demanded, then
/// the verifier's, and only once every check has passed.
pub fn decide_create(
    ctx: &Context,
    verifier: Address,
    taken: bool,
    buyer: Address,
    destination: Address,
    token: Address,
    amount: i128,
    deadline: u64,
) -> (r: Invocation<(Trade, Transfer), Error>)
    ensures
        match create_refusal(ctx.timestamp, taken, amount, deadline) {
            Some(e) => r.signers@ == Seq::<Address>::empty() && r.result == Err::<(Trade, Transfer), Error>(e),
            None => {
                &&& r.signers@ == seq![buyer, verifier]
                &&& r.result == Ok::<(Trade, Transfer), Error>((
                    funded(buyer, destination, token, amount, deadline),
                    Transfer { token, from: buyer, to: ctx.contract, amount },
                ))
            },
        },
{
    if amount <= 0 {
        return Invocation { signers: Vec::new(), result: Err(Error::AmountNotPositive) };
    }
    if deadline <= ctx.timestamp {
        return Invocation { signers: Vec::new(), result: Err(Error::DeadlineInPast) };
    }
    if deadline - ctx.timestamp > RECORD_LIFETIME {
        return Invocation { signers: Vec::new(), result: Err(Error::DeadlineTooFar) };
    }
    if taken {
        return Invocation { signers: Vec::new(), result: Err(Error::TradeExists) };
    }
    let mut signers = Vec::new();
    signers.push(buyer);
    signers.push(verifier);
    let trade = Trade { buyer, destination, token, amount, deadline, status: Status::Funded };
    let payment = Transfer { token, from: buyer, to: ctx.contract, amount };
    Invocation { signers, result: Ok((trade, payment)) }
}

/// Decides the release of the trade whose record is `record`. The verifier's
/// signature is demanded first, whatever follows. On success: the record
/// marked released, and the payment of the whole amount from the contract to
/// the destination recorded at creation.
pub fn decide_release(ctx: &Context, verifier: Address, record: Option<Trade>) -> (r: Invocation<(Trade, Transfer), Error>)
    ensures
        r.signers@ == seq![verifier],
        match release_refusal(record) {
            Some(e) => r.result == Err::<(Trade, Transfer), Error>(e),
            None => {
                let t = record.unwrap();
                r.result == Ok::<(Trade, Transfer), Error>((
                    with_status(t, Status::Released),
                    Transfer { token: t.token, from: ctx.contract, to: t.destination, amount: t.amount },
                ))
            },
        },
        r.result is Ok ==> {
            let t = record.unwrap();
            let kept = r.result.unwrap().0;
            &&& kept.buyer == t.buyer
            &&& kept.destination == t.destination
            &&& kept.token == t.token
            &&& kept.amount == t.amount
            &&& kept.deadline == t.deadline
            &&& kept.status == Status::Released
        },
{
    let mut signers = Vec::new();
    signers.push(verifier);
    match record {
        None => Invocation { signers, result: Err(Error::NoSuchTrade) },
        Some(t) => {
            if t.status != Status::Funded {
                return Invocation { signers, result: Err(Error::NotFunded) };
            }
            let released = Trade { status: Status::Released, ..t };
            let payment = Transfer { token: t.token, from: ctx.contract, to: t.destination, amount: t.amount };
            Invocation { signers, result: Ok((released, payment)) }
        },
    }
}

/// Decides the refund of the trade whose record is `record`. No signature is
/// demanded: once the deadline has passed, anyone may trigger it. On success:
/// the record marked refunded, and the payment of the whole amount from the
/// contract back to the buyer.
pub fn decide_refund(ctx: &Context, record: Option<Trade>) -> (r: Invocation<(Trade, Transfer), Error>)
    ensures
        r.signers@ == Seq::<Address>::empty(),
        match refund_refusal(ctx.timestamp, record) {
            Some(e) => r.result == Err::<(Trade, Transfer), Error>(e),
            None => {
                let t = record.unwrap();
                r.result == Ok::<(Trade, Transfer), Error>((
                    with_status(t, Status::Refunded),
                    Transfer { token: t.token, from: ctx.contract, to: t.buyer, amount: t.amount },
                ))
            },
        },
        r.result is Ok ==> {
            let t = record.unwrap();
            let kept = r.result.unwrap().0;
            &&& kept.buyer == t.buyer
            &&& kept.destination == t.destination
            &&& kept.token == t.token
            &&& kept.amount == t.amount
            &&& kept.deadline == t.deadline
            &&& kept.status == Status::Refunded
        },
{
    match record {
        None => Invocation { signers: Vec::new(), result: Err(Error::NoSuchTrade) },
        Some(t) => {
            if t.status != Status::Funded {
                return Invocation { signers: Vec::new(), result: Err(Error::NotFunded) };
            }
            if ctx.timestamp < t.deadline {
                return Invocation { signers: Vec::new(), result: Err(Error::DeadlineNotReached) };
            }
            let refunded = Trade { status: Status::Refunded, ..t };
            let payment = Transfer { token: t.token, from: ctx.contract, to: t.buyer, amount: t.amount };
            Invocation { signers: Vec::new(), result: Ok((refunded, payment)) }
        },
    }
}

/// The escrow contract: its verifier, set when it is deployed, and the
/// record of every trade it holds.
pub struct Escrow {
    verifier: Address,
    trades: Table<Trade>,
}

/// What an [`Escrow`] holds.
pub struct EscrowView {
    pub verifier: Address,
    pub trades: Map<TradeId, Trade>,
}

impl EscrowView {
    /// The record kept for trade `id`, if any.
    pub open spec fn record(self, id: TradeId) -> Option<Trade> {
        if self.trades.contains_key(id) {
            Some(self.trades[id])
        } else {
            None
        }
    }

    /// Creating an escrow: the escrow after it, the signatures demanded, and
    /// the result.
    pub open spec fn create(
        self,
        ctx: Context,
        id: TradeId,
        buyer: Address,
        destination: Address,
        token: Address,
        amount: i128,
        deadline: u64,
    ) -> (Self, Seq<Address>, Result<Transfer, Error>) {
        match create_refusal(ctx.timestamp, self.trades.contains_key(id), amount, deadline) {
            Some(e) => (self, Seq::empty(), Err(e)),
            None => (
                EscrowView {
                    trades: self.trades.insert(id, funded(buyer, destination, token, amount, deadline)),
                    ..self
                },
                seq![buyer, self.verifier],
                Ok(Transfer { token, from: buyer, to: ctx.contract, amount }),
            ),
        }
    }

    /// Releasing trade `id`: the escrow after it, the signatures demanded, and
    /// the result.
    pub open spec fn release(self, ctx: Context, id: TradeId) -> (Self, Seq<Address>, Result<Transfer, Error>) {
        match release_refusal(self.record(id)) {
            Some(e) => (self, seq![self.verifier], Err(e)),
            None => {
                let t = self.trades[id];
                (
                    EscrowView { trades: self.trades.insert(id, with_status(t, Status::Released)), ..self },
                    seq![self.verifier],
                    Ok(Transfer { token: t.token, from: ctx.contract, to: t.destination, amount: t.amount }),
                )
            },
        }
    }

    /// Refunding trade `id`: the escrow after it, the signatures demanded, and
    /// the result.
    pub open spec fn refund(self, ctx: Context, id: TradeId) -> (Self, Seq<Address>, Result<Transfer, Error>) {
        match refund_refusal(ctx.timestamp, self.record(id)) {
            Some(e) => (self, Seq::empty(), Err(e)),
            None => {
                let t = self.trades[id];
                (
                    EscrowView { trades: self.trades.insert(id, with_status(t, Status::Refunded)), ..self },
                    Seq::empty(),
                    Ok(Transfer { token: t.token, from: ctx.contract, to: t.buyer, amount: t.amount }),
                )
            },
        }
    }

    /// Reading trade `id`.
    pub open spec fn get(self, id: TradeId) -> Result<Trade, Error> {
        match self.record(id) {
            Some(t) => Ok(t),
            None => Err(Error::NoSuchTrade),
        }
    }
}

impl View for Escrow {
    type V = EscrowView;

    closed spec fn view(&self) -> EscrowView {
        EscrowView { verifier: self.verifier, trades: self.trades@ }
    }
}

impl Escrow {
    /// A newly deployed escrow whose releases `verifier` authorises. The
    /// verifier is set here, once, and holds no trade yet.
    pub fn init(verifier: Address) -> (e: Self)
        ensures
            e@ == (EscrowView { verifier, trades: Map::empty() }),
    {
        Escrow { verifier, trades: Table::new() }
    }

    /// The address whose signature a release demands.
    pub fn verifier_address(&self) -> (a: Address)
        ensures
            a == self@.verifier,
    {
        self.verifier
    }

    fn record(&self, trade_id: &TradeId) -> (r: Option<Trade>)
        ensures
            r == self@.record(*trade_id),
    {
        match self.trades.get(trade_id) {
            Some(t) => Some(*t),
            None => None,
        }
    }

    /// Funds an escrow for `trade_id`: `amount` of `token_id` moves from the
    /// buyer into the contract, to be paid later to `destination` or back to
    /// the buyer once `deadline` has passed.
    pub fn create(
        &mut self,
        ctx: &Context,
        trade_id: TradeId,
        buyer: Address,
        destination: Address,
        token_id: Address,
        amount: i128,
        deadline: u64,
    ) -> (r: Invocation<Transfer, Error>)
        ensures
            ({
                let (after, signers, result) = old(self)@.create(
                    *ctx, trade_id, buyer, destination, token_id, amount, deadline);
                &&& final(self)@ == after
                &&& r.signers@ == signers
                &&& r.result == result
            }),
    {
        let taken = self.trades.contains_key(&trade_id);
        let step = decide_create(ctx, self.verifier, taken, buyer, destination, token_id, amount, deadline);
        match step.result {
            Ok((trade, payment)) => {
                self.trades.insert(trade_id, trade);
                Invocation { signers: step.signers, result: Ok(payment) }
            },
            Err(e) => Invocation { signers: step.signers, result: Err(e) },
        }
    }

    /// Pays the destination recorded at creation. The caller does not get to
    /// name it, so a compromised verifier cannot redirect the money.
    pub fn release(&mut self, ctx: &Context, trade_id: TradeId) -> (r: Invocation<Transfer, Error>)
        ensures
            ({
                let (after, signers, result) = old(self)@.release(*ctx, trade_id);
                &&& final(self)@ == after
                &&& r.signers@ == signers
                &&& r.result == result
            }),
    {
        let record = self.record(&trade_id);
        let step = decide_release(ctx, self.verifier, record);
        match step.result {
            Ok((trade, payment)) => {
                self.trades.insert(trade_id, trade);
                Invocation { signers: step.signers, result: Ok(payment) }
            },
            Err(e) => Invocation { signers: step.signers, result: Err(e) },
        }
    }

    /// Returns the money to the buyer once the deadline has passed. Callable
    /// by anyone: a buyer's refund does not depend on any party still being
    /// around to sign for it.
    pub fn refund(&mut self, ctx: &Context, trade_id: TradeId) -> (r: Invocation<Transfer, Error>)
        ensures
            ({
                let (after, signers, result) = old(self)@.refund(*ctx, trade_id);
                &&& final(self)@ == after
                &&& r.signers@ == signers
                &&& r.result == result
            }),
    {
        let record = self.record(&trade_id);
        let step = decide_refund(ctx, record);
        match step.result {
            Ok((trade, payment)) => {
                self.trades.insert(trade_id, trade);
                Invocation { signers: step.signers, result: Ok(payment) }
            },
            Err(e) => Invocation { signers: step.signers, result: Err(e) },
        }
    }

    /// The record of trade `trade_id`.
    pub fn get(&self, trade_id: TradeId) -> (r: Result<Trade, Error>)
        ensures
            r == self@.get(trade_id),
    {
        match self.record(&trade_id) {
            Some(t) => Ok(t),
            None => Err(Error::NoSuchTrade),
        }
    }
}

/// `after` keeps everything `before` holds, but for trades that were funded
/// and are now released or refunded: the verifier, every trade id, and every
/// trade's buyer, destination, token, amount and deadline stay as they were.
pub open spec fn only_settles(before: EscrowView, after: EscrowView) -> bool {
    &&& after.verifier == before.verifier
    &&& forall|k: TradeId| #[trigger] before.trades.contains_key(k) ==> {
        let t = before.trades[k];
        &&& after.trades.contains_key(k)
        &&& {
            ||| after.trades[k] == t
            ||| t.status == Status::Funded && after.trades[k] == with_status(t, Status::Released)
            ||| t.status == Status::Funded && after.trades[k] == with_status(t, Status::Refunded)
        }
    }
}

/// `after` differs from `before` at most in the record of trade `id`.
pub open spec fn only_touches(before: EscrowView, after: EscrowView, id: TradeId) -> bool {
    &&& after.verifier == before.verifier
    &&& forall|k: TradeId| k != id ==> (#[trigger] after.trades.contains_key(k) == before.trades.contains_key(k))
    &&& forall|k: TradeId| k != id && before.trades.contains_key(k) ==> #[trigger] after.trades[k] == before.trades[k]
}

/// No operation alters a trade's terms: the buyer, the destination, the token,
/// the amount and the deadline are fixed when the trade is created, and the
/// verifier when the escrow is deployed. A trade's status only ever moves from
/// funded to released or to refunded; a released or refunded trade never
/// changes again. Each operation touches no trade but the one it names.
pub proof fn law_terms_fixed_and_status_forward(
    s: EscrowView,
    ctx: Context,
    id: TradeId,
    buyer: Address,
    destination: Address,
    token: Address,
    amount: i128,
    deadline: u64,
)
    ensures
        only_settles(s, s.create(ctx, id, buyer, destination, token, amount, deadline).0),
        only_settles(s, s.release(ctx, id).0),
        only_settles(s, s.refund(ctx, id).0),
        only_touches(s, s.create(ctx, id, buyer, destination, token, amount, deadline).0, id),
        only_touches(s, s.release(ctx, id).0, id),
        only_touches(s, s.refund(ctx, id).0, id),
{
}

/// Release pays only the destination fixed when the trade was created, the
/// whole amount, out of the contract; there is no way to name another. It
/// demands the verifier's signature, and no other.
pub proof fn law_release_pays_destination_fixed_at_creation(
    s: EscrowView,
    created_at: Context,
    released_at: Context,
    id: TradeId,
    buyer: Address,
    destination: Address,
    token: Address,
    amount: i128,
    deadline: u64,
)
    requires
        created_at.contract == released_at.contract,
        s.create(created_at, id, buyer, destination, token, amount, deadline).2 is Ok,
    ensures
        ({
            let (s1, _, _) = s.create(created_at, id, buyer, destination, token, amount, deadline);
            let (_, signers, result) = s1.release(released_at, id);
            &&& signers == seq![s.verifier]
            &&& result == Ok::<Transfer, Error>(
                Transfer { token, from: released_at.contract, to: destination, amount })
        }),
{
}

/// Whatever the escrow holds, a release demands exactly the verifier's
/// signature and a refund demands none; a creation demands the buyer's and
/// then the verifier's, or none when it is refused.
pub proof fn law_signatures_demanded(
    s: EscrowView,
    ctx: Context,
    id: TradeId,
    buyer: Address,
    destination: Address,
    token: Address,
    amount: i128,
    deadline: u64,
)
    ensures
        s.release(ctx, id).1 == seq![s.verifier],
        s.refund(ctx, id).1 == Seq::<Address>::empty(),
        ({
            let (_, signers, result) = s.create(ctx, id, buyer, destination, token, amount, deadline);
            &&& result is Ok ==> signers == seq![buyer, s.verifier]
            &&& result is Err ==> signers == Seq::<Address>::empty()
        }),
{
}

/// A trade pays out at most once. After it has been released, or refunded,
/// neither a release nor a refund of it succeeds again: each is refused as not
/// funded and changes nothing.
pub proof fn law_pays_out_at_most_once(s: EscrowView, ctx: Context, later: Context, id: TradeId)
    ensures
        s.release(ctx, id).2 is Ok ==> {
            let s1 = s.release(ctx, id).0;
            &&& s1.release(later, id).2 == Err::<Transfer, Error>(Error::NotFunded)
            &&& s1.refund(later, id).2 == Err::<Transfer, Error>(Error::NotFunded)
            &&& s1.release(later, id).0 == s1
            &&& s1.refund(later, id).0 == s1
        },
        s.refund(ctx, id).2 is Ok ==> {
            let s1 = s.refund(ctx, id).0;
            &&& s1.release(later, id).2 == Err::<Transfer, Error>(Error::NotFunded)
            &&& s1.refund(later, id).2 == Err::<Transfer, Error>(Error::NotFunded)
            &&& s1.release(later, id).0 == s1
            &&& s1.refund(later, id).0 == s1
        },
{
}

/// A trade id holds one escrow for good: creating another under an id already
/// in use is refused and changes nothing.
pub proof fn law_trade_id_taken_once(
    s: EscrowView,
    ctx: Context,
    id: TradeId,
    buyer: Address,
    destination: Address,
    token: Address,
    amount: i128,
    deadline: u64,
)
    requires
        s.trades.contains_key(id),
    ensures
        s.create(ctx, id, buyer, destination, token, amount, deadline).2 is Err,
        s.create(ctx, id, buyer, destination, token, amount, deadline).0 == s,
{
}

/// A newly created escrow reads back funded, with the terms it was created
/// with, and holds the payment it took from the buyer.
pub proof fn law_created_reads_back(
    s: EscrowView,
    ctx: Context,
    id: TradeId,
    buyer: Address,
    destination: Address,
    token: Address,
    amount: i128,
    deadline: u64,
)
    requires
        s.create(ctx, id, buyer, destination, token, amount, deadline).2 is Ok,
    ensures
        ({
            let (s1, _, result) = s.create(ctx, id, buyer, destination, token, amount, deadline);
            &&& s1.get(id) == Ok::<Trade, Error>(Trade { buyer, destination, token, amount, deadline, status: Status::Funded })
            &&& result == Ok::<Transfer, Error>(Transfer { token, from: buyer, to: ctx.contract, amount })
        }),
{
}

/// A refund succeeds exactly when the trade is funded and its deadline has
/// been reached; it then pays the buyer recorded at creation the whole amount.
/// A creation succeeds exactly when the amount is positive, the deadline lies
/// after the current time and within the record's lifetime, and the id is free.
pub proof fn law_when_refund_and_create_succeed(
    s: EscrowView,
    ctx: Context,
    id: TradeId,
    buyer: Address,
    destination: Address,
    token: Address,
    amount: i128,
    deadline: u64,
)
    ensures
        (s.refund(ctx, id).2 is Ok) <==> (s.trades.contains_key(id)
            && s.trades[id].status == Status::Funded && ctx.timestamp >= s.trades[id].deadline),
        s.refund(ctx, id).2 is Ok ==> s.refund(ctx, id).2 == Ok::<Transfer, Error>(Transfer {
            token: s.trades[id].token,
            from: ctx.contract,
            to: s.trades[id].buyer,
            amount: s.trades[id].amount,
        }),
        (s.create(ctx, id, buyer, destination, token, amount, deadline).2 is Ok) <==> (amount > 0
            && ctx.timestamp < deadline && deadline - ctx.timestamp <= RECORD_LIFETIME
            && !s.trades.contains_key(id)),
{
}

/// Only a funded trade pays out, and paying out settles it: a release or a
/// refund that succeeds finds the trade funded and leaves it released, or
/// refunded, which no operation ever changes again. So over any history a
/// trade pays out at most once, and what it pays is the amount it took in.
pub proof fn law_only_funded_trades_pay(s: EscrowView, ctx: Context, id: TradeId)
    ensures
        s.release(ctx, id).2 is Ok ==> {
            &&& s.trades.contains_key(id)
            &&& s.trades[id].status == Status::Funded
            &&& s.release(ctx, id).0.trades[id] == with_status(s.trades[id], Status::Released)
            &&& s.release(ctx, id).2.unwrap().amount == s.trades[id].amount
        },
        s.refund(ctx, id).2 is Ok ==> {
            &&& s.trades.contains_key(id)
            &&& s.trades[id].status == Status::Funded
            &&& s.refund(ctx, id).0.trades[id] == with_status(s.trades[id], Status::Refunded)
            &&& s.refund(ctx, id).2.unwrap().amount == s.trades[id].amount
        },
        s.trades.contains_key(id) && s.trades[id].status != Status::Funded ==> {
            &&& s.release(ctx, id).2 == Err::<Transfer, Error>(Error::NotFunded)
            &&& s.refund(ctx, id).2 == Err::<Transfer, Error>(Error::NotFunded)
        },
{
}

/// Settling a trade changes nothing of its record but its status: after a
/// successful release the record holds the same buyer, destination, token,
/// amount and deadline as before and is released; after a successful refund
/// likewise, and it is refunded. The amount recorded is the amount paid out.
pub proof fn law_settling_changes_only_the_status(s: EscrowView, ctx: Context, id: TradeId)
    ensures
        s.release(ctx, id).2 is Ok ==> {
            let before = s.trades[id];
            let after = s.release(ctx, id).0.trades[id];
            &&& s.release(ctx, id).0.trades.contains_key(id)
            &&& after.buyer == before.buyer
            &&& after.destination == before.destination
            &&& after.token == before.token
            &&& after.amount == before.amount
            &&& after.deadline == before.deadline
            &&& after.status == Status::Released
            &&& s.release(ctx, id).2.unwrap().amount == after.amount
        },
        s.refund(ctx, id).2 is Ok ==> {
            let before = s.trades[id];
            let after = s.refund(ctx, id).0.trades[id];
            &&& s.refund(ctx, id).0.trades.contains_key(id)
            &&& after.buyer == before.buyer
            &&& after.destination == before.destination
            &&& after.token == before.token
            &&& after.amount == before.amount
            &&& after.deadline == before.deadline
            &&& after.status == Status::Refunded
            &&& s.refund(ctx, id).2.unwrap().amount == after.amount
        },
{
}

/// A refused operation changes nothing: whenever creating, releasing or
/// refunding returns an error, the escrow afterwards is exactly the escrow
/// before, so no record appears, none changes, and nothing is paid.
pub proof fn law_refusal_changes_nothing(
    s: EscrowView,
    ctx: Context,
    id: TradeId,
    buyer: Address,
    destination: Address,
    token: Address,
    amount: i128,
    deadline: u64,
)
    ensures
        s.create(ctx, id, buyer, destination, token, amount, deadline).2 is Err
            ==> s.create(ctx, id, buyer, destination, token, amount, deadline).0 == s,
        s.release(ctx, id).2 is Err ==> s.release(ctx, id).0 == s,
        s.refund(ctx, id).2 is Err ==> s.refund(ctx, id).0 == s,
        !s.trades.contains_key(id) && s.create(ctx, id, buyer, destination, token, amount, deadline).2 is Err ==> {
            let s1 = s.create(ctx, id, buyer, destination, token, amount, deadline).0;
            &&& s1.get(id) == Err::<Trade, Error>(Error::NoSuchTrade)
            &&& s1.refund(ctx, id).2 == Err::<Transfer, Error>(Error::NoSuchTrade)
        },
{
}

} // verus!
