//! A write-once record that a trade settled.
//!
//! Holds a digest over a canonical serialisation of the trade record, never
//! the record itself. A lender shown a trade hashes it and checks that it
//! matches what settled. Write-once is the point: an attestation that could be
//! amended would prove only what was last chosen to be said. Writing is
//! restricted to the attester, or anyone could fill a trade's one slot with
//! junk ahead of the real record.

use vstd::prelude::*;
use crate::common::{Address, Context, Digest, Invocation, TradeId, same_bytes};
use crate::table::Table;

verus! {

/// Why a registry operation was refused.
#[derive(Clone, Copy, Debug, PartialEq, Eq, Structural)]
pub enum Error {
    AlreadyAttested,
    NoSuchTrade,
}

/// The digest recorded for a trade, with the ledger position it was recorded at.
#[derive(Clone, Copy, Debug, PartialEq, Eq)]
pub struct Attestation {
    pub digest: Digest,
    pub ledger: u32,
    pub timestamp: u64,
}

/// The attestation of `digest` made on the ledger `ctx`.
pub open spec fn attestation_at(ctx: Context, digest: Digest) -> Attestation {
    Attestation { digest, ledger: ctx.sequence, timestamp: ctx.timestamp }
}

/// Whether `record`, the attestation kept for a trade if any, holds `digest`.
pub open spec fn record_matches(record: Option<Attestation>, digest: Digest) -> bool {
    match record {
        Some(a) => a.digest == digest,
        None => false,
    }
}

/// Decides the attestation of `digest` for a trade; `taken` says whether the
/// trade already has one. The attester's signature is demanded first,
/// whatever follows. On success: the record to keep.
pub fn decide_attest(ctx: &Context, attester: Address, taken: bool, digest: Digest) -> (r: Invocation<Attestation, Error>)
    ensures
        r.signers@ == seq![attester],
        r.result == (if taken {
            Err::<Attestation, Error>(Error::AlreadyAttested)
        } else {
            Ok::<Attestation, Error>(attestation_at(*ctx, digest))
        }),
{
    let mut signers = Vec::new();
    signers.push(attester);
    if taken {
        return Invocation { signers, result: Err(Error::AlreadyAttested) };
    }
    let record = Attestation { digest, ledger: ctx.sequence, timestamp: ctx.timestamp };
    Invocation { signers, result: Ok(record) }
}

/// Whether `record`, the attestation kept for a trade if any, holds
/// `digest`. An unknown trade matches nothing.
pub fn digest_matches(record: Option<Attestation>, digest: &Digest) -> (r: bool)
    ensures
        r == record_matches(record, *digest),
{
    match record {
        Some(a) => same_bytes(&a.digest, digest),
        None => false,
    }
}

/// The registry contract: its attester, set when it is deployed, and the
/// attestation recorded for each trade.
pub struct Registry {
    attester: Address,
    records: Table<Attestation>,
}

/// What a [`Registry`] holds.
pub struct RegistryView {
    pub attester: Address,
    pub records: Map<TradeId, Attestation>,
}

impl RegistryView {
    /// The attestation kept for trade `id`, if any.
    pub open spec fn record(self, id: TradeId) -> Option<Attestation> {
        if self.records.contains_key(id) {
            Some(self.records[id])
        } else {
            None
        }
    }

    /// Attesting `digest` for trade `id` on the ledger `ctx`: the registry
    /// after it, the signatures demanded, and the result.
    pub open spec fn attest(self, ctx: Context, id: TradeId, digest: Digest) -> (Self, Seq<Address>, Result<(), Error>) {
        if self.records.contains_key(id) {
            (self, seq![self.attester], Err(Error::AlreadyAttested))
        } else {
            (
                RegistryView { records: self.records.insert(id, attestation_at(ctx, digest)), ..self },
                seq![self.attester],
                Ok(()),
            )
        }
    }

    /// Reading the attestation of trade `id`.
    pub open spec fn get(self, id: TradeId) -> Result<Attestation, Error> {
        match self.record(id) {
            Some(a) => Ok(a),
            None => Err(Error::NoSuchTrade),
        }
    }

    /// Whether `digest` is the one recorded for trade `id`.
    pub open spec fn matches(self, id: TradeId, digest: Digest) -> bool {
        record_matches(self.record(id), digest)
    }
}

impl View for Registry {
    type V = RegistryView;

    closed spec fn view(&self) -> RegistryView {
        RegistryView { attester: self.attester, records: self.records@ }
    }
}

impl Registry {
    /// A newly deployed registry whose attestations `attester` makes.
    pub fn new(attester: Address) -> (r: Self)
        ensures
            r@ == (RegistryView { attester, records: Map::empty() }),
    {
        Registry { attester, records: Table::new() }
    }

    /// The address whose signature an attestation demands.
    pub fn attester(&self) -> (a: Address)
        ensures
            a == self@.attester,
    {
        self.attester
    }

    fn record(&self, trade_id: &TradeId) -> (r: Option<Attestation>)
        ensures
            r == self@.record(*trade_id),
    {
        match self.records.get(trade_id) {
            Some(a) => Some(*a),
            None => None,
        }
    }

    /// Records `digest` against trade `trade_id`, with the ledger position it
    /// was recorded at. Refused if the trade already has one.
    pub fn attest(&mut self, ctx: &Context, trade_id: TradeId, digest: Digest) -> (r: Invocation<(), Error>)
        ensures
            ({
                let (after, signers, result) = old(self)@.attest(*ctx, trade_id, digest);
                &&& final(self)@ == after
                &&& r.signers@ == signers
                &&& r.result == result
            }),
    {
        let taken = self.records.contains_key(&trade_id);
        let step = decide_attest(ctx, self.attester, taken, digest);
        match step.result {
            Ok(record) => {
                self.records.insert(trade_id, record);
                Invocation { signers: step.signers, result: Ok(()) }
            },
            Err(e) => Invocation { signers: step.signers, result: Err(e) },
        }
    }

    /// The attestation recorded for trade `trade_id`.
    pub fn get(&self, trade_id: TradeId) -> (r: Result<Attestation, Error>)
        ensures
            r == self@.get(trade_id),
    {
        match self.record(&trade_id) {
            Some(a) => Ok(a),
            None => Err(Error::NoSuchTrade),
        }
    }

    /// True when `digest` is the one recorded for trade `trade_id`: the check
    /// a lender runs after hashing the record they were shown. False, not an
    /// error, for a trade that was never attested.
    pub fn matches(&self, trade_id: TradeId, digest: Digest) -> (r: bool)
        ensures
            r == self@.matches(trade_id, digest),
    {
        digest_matches(self.record(&trade_id), &digest)
    }
}

/// An attestation reads back as it was made: the digest, with the ledger
/// sequence and time it was made at, and it matches exactly that digest.
pub proof fn law_attestation_reads_back(v: RegistryView, ctx: Context, id: TradeId, digest: Digest, other: Digest)
    requires
        v.attest(ctx, id, digest).2 is Ok,
    ensures
        ({
            let v1 = v.attest(ctx, id, digest).0;
            &&& v1.get(id) == Ok::<Attestation, Error>(Attestation { digest, ledger: ctx.sequence, timestamp: ctx.timestamp })
            &&& v1.matches(id, digest)
            &&& v1.matches(id, other) <==> other == digest
        }),
{
}

/// An attestation cannot be overwritten: attesting again for the same trade,
/// with any digest at any time, is refused and leaves the first in place.
pub proof fn law_attestation_written_once(v: RegistryView, ctx: Context, later: Context, id: TradeId, digest: Digest, other: Digest)
    requires
        v.attest(ctx, id, digest).2 is Ok,
    ensures
        ({
            let v1 = v.attest(ctx, id, digest).0;
            &&& v1.attest(later, id, other).2 == Err::<(), Error>(Error::AlreadyAttested)
            &&& v1.attest(later, id, other).0 == v1
        }),
{
}

/// Attesting demands the attester's signature and no other, whatever
/// follows; it succeeds exactly for a trade not yet attested, and touches no
/// other trade's record. A trade never attested matches no digest and reads
/// as an error.
pub proof fn law_attest_signers_and_unknown_trades(v: RegistryView, ctx: Context, id: TradeId, digest: Digest, k: TradeId)
    ensures
        v.attest(ctx, id, digest).1 == seq![v.attester],
        (v.attest(ctx, id, digest).2 is Ok) <==> !v.records.contains_key(id),
        k != id ==> v.attest(ctx, id, digest).0.record(k) == v.record(k),
        !v.records.contains_key(k) ==> !v.matches(k, digest) && v.get(k) == Err::<Attestation, Error>(Error::NoSuchTrade),
{
}

} // verus!
