use axk_settlement::common::{Address, Context, Transfer};
use axk_settlement::escrow::{
    decide_create, decide_refund, decide_release, Error, Escrow, Status, Trade, DAY_SECONDS,
    RECORD_LIFETIME,
};

const DAY: u64 = DAY_SECONDS;

fn addr(first: u8, tag: u8) -> Address {
    let mut strkey = [b'A'; 56];
    strkey[0] = first;
    strkey[55] = tag;
    Address { strkey }
}

fn account(tag: u8) -> Address {
    addr(b'G', tag)
}

fn trade_id(n: u8) -> [u8; 32] {
    let mut bytes = [0u8; 32];
    bytes[31] = n;
    bytes
}

/// Token balances, moved only by the transfers an operation returns.
struct Balances {
    held: Vec<(Address, i128)>,
}

impl Balances {
    fn balance(&self, a: &Address) -> i128 {
        self.held.iter().find(|(k, _)| k == a).map(|(_, v)| *v).unwrap_or(0)
    }

    fn add(&mut self, a: &Address, amount: i128) {
        match self.held.iter_mut().find(|(k, _)| k == a) {
            Some((_, v)) => *v += amount,
            None => self.held.push((*a, amount)),
        }
    }

    fn apply(&mut self, t: &Transfer) {
        assert!(t.amount >= 0);
        assert!(self.balance(&t.from) >= t.amount, "transfer beyond the payer's balance");
        self.add(&t.from, -t.amount);
        self.add(&t.to, t.amount);
    }
}

struct Fixture {
    ctx: Context,
    escrow: Escrow,
    token: Address,
    buyer: Address,
    destination: Address,
    verifier: Address,
    balances: Balances,
}

fn setup() -> Fixture {
    let contract = addr(b'C', 1);
    let token = addr(b'C', 2);
    let buyer = account(10);
    let destination = account(11);
    let verifier = account(12);
    let mut balances = Balances { held: Vec::new() };
    balances.add(&buyer, 1_000);
    Fixture {
        ctx: Context { contract, timestamp: 0, sequence: 1 },
        escrow: Escrow::init(verifier),
        token,
        buyer,
        destination,
        verifier,
        balances,
    }
}

fn fund(f: &mut Fixture, id: &[u8; 32], amount: i128) -> Vec<Address> {
    let deadline = f.ctx.timestamp + 30 * DAY;
    let inv = f.escrow.create(&f.ctx, *id, f.buyer, f.destination, f.token, amount, deadline);
    let payment = inv.result.expect("create refused");
    f.balances.apply(&payment);
    inv.signers
}

fn release(f: &mut Fixture, id: &[u8; 32]) -> Result<(), Error> {
    let inv = f.escrow.release(&f.ctx, *id);
    inv.result.map(|t| f.balances.apply(&t))
}

fn refund(f: &mut Fixture, id: &[u8; 32]) -> Result<(), Error> {
    let inv = f.escrow.refund(&f.ctx, *id);
    inv.result.map(|t| f.balances.apply(&t))
}

/// Whether an invocation that demands `demanded` completes when only
/// `signed` have signed.
fn completes(demanded: &[Address], signed: &[Address]) -> bool {
    demanded.iter().all(|a| signed.contains(a))
}

#[test]
fn funds_move_from_the_buyer_into_the_contract() {
    let mut f = setup();
    let id = trade_id(1);
    fund(&mut f, &id, 250);

    assert_eq!(f.balances.balance(&f.buyer), 750);
    assert_eq!(f.balances.balance(&f.ctx.contract), 250);
    assert_eq!(f.escrow.get(id).unwrap().status, Status::Funded);
}

#[test]
fn release_pays_the_destination_fixed_at_creation() {
    let mut f = setup();
    let id = trade_id(1);
    fund(&mut f, &id, 250);

    release(&mut f, &id).unwrap();

    assert_eq!(f.balances.balance(&f.destination), 250);
    assert_eq!(f.balances.balance(&f.ctx.contract), 0);
    assert_eq!(f.escrow.get(id).unwrap().status, Status::Released);
}

#[test]
fn there_is_no_way_to_name_a_destination_at_release() {
    // `release` takes only a trade id, so a compromised verifier has no
    // parameter through which to redirect funds.
    let mut f = setup();
    let id = trade_id(1);
    fund(&mut f, &id, 250);

    let attacker = account(66);
    release(&mut f, &id).unwrap();

    assert_eq!(f.balances.balance(&attacker), 0);
    assert_eq!(f.balances.balance(&f.destination), 250);
}

#[test]
fn release_twice_is_refused() {
    let mut f = setup();
    let id = trade_id(1);
    fund(&mut f, &id, 250);
    release(&mut f, &id).unwrap();

    assert_eq!(release(&mut f, &id), Err(Error::NotFunded));
    assert_eq!(f.balances.balance(&f.destination), 250);
}

#[test]
fn a_released_trade_cannot_then_be_refunded() {
    let mut f = setup();
    let id = trade_id(1);
    fund(&mut f, &id, 250);
    release(&mut f, &id).unwrap();

    f.ctx.timestamp += 60 * DAY;

    assert_eq!(refund(&mut f, &id), Err(Error::NotFunded));
    assert_eq!(f.balances.balance(&f.buyer), 750);
}

#[test]
fn a_refunded_trade_cannot_then_be_released() {
    let mut f = setup();
    let id = trade_id(1);
    fund(&mut f, &id, 250);

    f.ctx.timestamp += 60 * DAY;
    refund(&mut f, &id).unwrap();

    assert_eq!(release(&mut f, &id), Err(Error::NotFunded));
    assert_eq!(f.balances.balance(&f.destination), 0);
    assert_eq!(f.balances.balance(&f.buyer), 1_000);
}

#[test]
fn refund_before_the_deadline_is_refused() {
    let mut f = setup();
    let id = trade_id(1);
    fund(&mut f, &id, 250);

    assert_eq!(refund(&mut f, &id), Err(Error::DeadlineNotReached));
    assert_eq!(f.balances.balance(&f.ctx.contract), 250);
}

#[test]
fn refund_after_the_deadline_returns_the_buyer_their_money() {
    let mut f = setup();
    let id = trade_id(1);
    fund(&mut f, &id, 250);

    f.ctx.timestamp += 31 * DAY;
    refund(&mut f, &id).unwrap();

    assert_eq!(f.balances.balance(&f.buyer), 1_000);
    assert_eq!(f.escrow.get(id).unwrap().status, Status::Refunded);
}

#[test]
fn a_second_escrow_cannot_reuse_a_trade_id() {
    let mut f = setup();
    let id = trade_id(1);
    fund(&mut f, &id, 250);

    let deadline = f.ctx.timestamp + 30 * DAY;
    let inv = f.escrow.create(&f.ctx, id, f.buyer, f.destination, f.token, 100, deadline);
    assert_eq!(inv.result, Err(Error::TradeExists));
    assert_eq!(f.balances.balance(&f.ctx.contract), 250);
}

#[test]
fn a_zero_or_negative_amount_is_refused() {
    let mut f = setup();
    let deadline = f.ctx.timestamp + 30 * DAY;
    for (n, amount) in [(2u8, 0i128), (3, -100)] {
        let inv = f.escrow.create(&f.ctx, trade_id(n), f.buyer, f.destination, f.token, amount, deadline);
        assert_eq!(inv.result, Err(Error::AmountNotPositive));
    }
}

#[test]
fn a_deadline_already_past_is_refused() {
    // Otherwise the escrow is refundable the moment it is funded.
    let mut f = setup();
    f.ctx.timestamp = 1_000;
    let deadline = f.ctx.timestamp;
    let inv = f.escrow.create(&f.ctx, trade_id(4), f.buyer, f.destination, f.token, 100, deadline);
    assert_eq!(inv.result, Err(Error::DeadlineInPast));
}

#[test]
fn a_deadline_beyond_the_records_own_lifetime_is_refused() {
    // A trade nobody touches until a 300-day deadline could have its record
    // archived before then.
    let mut f = setup();
    let deadline = f.ctx.timestamp + 300 * DAY;
    let inv = f.escrow.create(&f.ctx, trade_id(5), f.buyer, f.destination, f.token, 100, deadline);
    assert_eq!(inv.result, Err(Error::DeadlineTooFar));
}

#[test]
fn create_demands_the_verifier_signature_as_well_as_the_buyer() {
    let mut f = setup();
    let signers = fund(&mut f, &trade_id(1), 250);

    assert!(signers.iter().any(|a| a == &f.buyer), "the buyer was not asked to sign");
    assert!(signers.iter().any(|a| a == &f.verifier), "the verifier was not asked to sign");
}

#[test]
fn a_stranger_cannot_squat_a_trade_id() {
    let verifier = account(12);
    let squatter = account(13);
    let token = addr(b'C', 2);
    let ctx = Context { contract: addr(b'C', 1), timestamp: 0, sequence: 1 };
    let mut escrow = Escrow::init(verifier);

    let deadline = ctx.timestamp + 30 * DAY;
    let inv = escrow.create(&ctx, trade_id(1), squatter, squatter, token, 1, deadline);
    assert!(
        !completes(&inv.signers, &[squatter]),
        "a stranger occupied a trade id",
    );
}

#[test]
fn the_verifier_is_set_in_the_deploy_transaction() {
    let f = setup();
    assert_eq!(f.escrow.verifier_address(), f.verifier);
}

#[test]
fn create_demands_the_buyer_signature_specifically() {
    let mut f = setup();
    let signers = fund(&mut f, &trade_id(1), 250);
    assert_eq!(signers.first().cloned(), Some(f.buyer));
}

#[test]
fn an_unknown_trade_id_is_an_error_not_a_panic() {
    let mut f = setup();
    let unknown = trade_id(9);
    assert_eq!(f.escrow.get(unknown), Err(Error::NoSuchTrade));
    assert_eq!(release(&mut f, &unknown), Err(Error::NoSuchTrade));
    assert_eq!(refund(&mut f, &unknown), Err(Error::NoSuchTrade));
}

#[test]
fn release_demands_the_verifier_signature_specifically() {
    let mut f = setup();
    let id = trade_id(1);
    fund(&mut f, &id, 250);

    let inv = f.escrow.release(&f.ctx, id);
    assert!(inv.result.is_ok());
    assert_eq!(inv.signers.first().cloned(), Some(f.verifier));
}

#[test]
fn refund_demands_no_signature_at_all() {
    let mut f = setup();
    let id = trade_id(1);
    fund(&mut f, &id, 250);
    f.ctx.timestamp += 31 * DAY;

    let inv = f.escrow.refund(&f.ctx, id);
    assert!(inv.result.is_ok());
    assert!(inv.signers.is_empty(), "refund required an authorisation");
}

#[test]
fn a_created_trade_reads_back_with_its_terms() {
    let mut f = setup();
    let id = trade_id(7);
    let deadline = 30 * DAY;
    let inv = f.escrow.create(&f.ctx, id, f.buyer, f.destination, f.token, 250, deadline);
    assert_eq!(
        inv.result,
        Ok(Transfer { token: f.token, from: f.buyer, to: f.ctx.contract, amount: 250 })
    );
    assert_eq!(inv.signers, vec![f.buyer, f.verifier]);
    assert_eq!(
        f.escrow.get(id),
        Ok(Trade {
            buyer: f.buyer,
            destination: f.destination,
            token: f.token,
            amount: 250,
            deadline,
            status: Status::Funded,
        })
    );
}

#[test]
fn a_refused_creation_demands_no_signature_and_changes_nothing() {
    let mut f = setup();
    let inv = f.escrow.create(&f.ctx, trade_id(3), f.buyer, f.destination, f.token, 0, DAY);
    assert!(inv.signers.is_empty());
    assert_eq!(f.escrow.get(trade_id(3)), Err(Error::NoSuchTrade));
}

#[test]
fn a_deadline_exactly_one_lifetime_out_is_accepted() {
    let mut f = setup();
    f.ctx.timestamp = 5_000;
    let inv = f.escrow.create(&f.ctx, trade_id(1), f.buyer, f.destination, f.token, 10, 5_000 + RECORD_LIFETIME);
    assert!(inv.result.is_ok());
    let inv = f.escrow.create(&f.ctx, trade_id(2), f.buyer, f.destination, f.token, 10, 5_001 + RECORD_LIFETIME);
    assert_eq!(inv.result, Err(Error::DeadlineTooFar));
    assert_eq!(RECORD_LIFETIME, 15_552_000);
}

#[test]
fn refund_is_allowed_exactly_at_the_deadline() {
    let mut f = setup();
    let id = trade_id(1);
    fund(&mut f, &id, 250);
    f.ctx.timestamp = 30 * DAY - 1;
    assert_eq!(refund(&mut f, &id), Err(Error::DeadlineNotReached));
    f.ctx.timestamp = 30 * DAY;
    assert_eq!(refund(&mut f, &id), Ok(()));
    assert_eq!(f.balances.balance(&f.buyer), 1_000);
}

#[test]
fn the_checks_of_creation_come_in_order() {
    let mut f = setup();
    let id = trade_id(1);
    fund(&mut f, &id, 250);
    // An id in use with a zero amount is refused for the amount first.
    let inv = f.escrow.create(&f.ctx, id, f.buyer, f.destination, f.token, 0, 0);
    assert_eq!(inv.result, Err(Error::AmountNotPositive));
    let inv = f.escrow.create(&f.ctx, id, f.buyer, f.destination, f.token, 5, 0);
    assert_eq!(inv.result, Err(Error::DeadlineInPast));
    let inv = f.escrow.create(&f.ctx, id, f.buyer, f.destination, f.token, 5, 400 * DAY);
    assert_eq!(inv.result, Err(Error::DeadlineTooFar));
}

#[test]
fn operations_leave_other_trades_alone() {
    let mut f = setup();
    let a = trade_id(1);
    let b = trade_id(2);
    fund(&mut f, &a, 100);
    fund(&mut f, &b, 200);
    release(&mut f, &a).unwrap();
    assert_eq!(f.escrow.get(b).unwrap().status, Status::Funded);
    assert_eq!(f.escrow.get(b).unwrap().amount, 200);
    assert_eq!(f.balances.balance(&f.ctx.contract), 200);
}

#[test]
fn escrow_record_decisions_match_the_contract() {
    let ctx = Context { contract: addr(b'C', 1), timestamp: 100, sequence: 3 };
    let verifier = account(12);
    let buyer = account(10);
    let destination = account(11);
    let token = addr(b'C', 2);

    let inv = decide_create(&ctx, verifier, false, buyer, destination, token, 40, 200);
    assert_eq!(inv.signers, vec![buyer, verifier]);
    let (trade, payment) = inv.result.unwrap();
    assert_eq!(payment, Transfer { token, from: buyer, to: ctx.contract, amount: 40 });
    assert_eq!(trade.status, Status::Funded);

    let taken = decide_create(&ctx, verifier, true, buyer, destination, token, 40, 200);
    assert_eq!(taken.result, Err(Error::TradeExists));
    assert!(taken.signers.is_empty());

    let inv = decide_release(&ctx, verifier, Some(trade));
    assert_eq!(inv.signers, vec![verifier]);
    let (released, payment) = inv.result.unwrap();
    assert_eq!(released.status, Status::Released);
    assert_eq!(released.destination, destination);
    assert_eq!(payment, Transfer { token, from: ctx.contract, to: destination, amount: 40 });
    assert_eq!(decide_release(&ctx, verifier, None).result, Err(Error::NoSuchTrade));
    assert_eq!(decide_release(&ctx, verifier, None).signers, vec![verifier]);

    assert_eq!(decide_refund(&ctx, Some(trade)).result, Err(Error::DeadlineNotReached));
    let later = Context { timestamp: 200, ..ctx };
    let (refunded, payment) = decide_refund(&later, Some(trade)).result.unwrap();
    assert_eq!(refunded.status, Status::Refunded);
    assert_eq!(payment, Transfer { token, from: ctx.contract, to: buyer, amount: 40 });
    assert_eq!(decide_refund(&later, Some(released)).result, Err(Error::NotFunded));
}
