//! Multi-sig governance of the admin module: the admin pool and threshold,
//! governance proposals with their approvals and timelocks, and WASM upgrade
//! proposals with weighted votes.
//!
//! Every operation that fails leaves the ledger as it was: the contract call
//! that carried it is rejected as a whole.

use vstd::prelude::*;
use crate::address::{Address, addr_seq, contains_address, duplicate_addresses, is_zero_address, zero_address_view};
use crate::ledger_map::{LedgerKey, LedgerMap};
use crate::rbac::{AccessControl, AdminError, Role, require_admin};

verus! {

/// Delay between a proposal reaching quorum and its execution, in seconds.
pub const TIMELOCK_DELAY_SECS: u64 = 86400;

/// The unlock time of a proposal that reaches quorum at `now`.
pub open spec fn unlock_time(now: u64) -> u64 {
    if now + TIMELOCK_DELAY_SECS > u64::MAX {
        u64::MAX
    } else {
        (now + TIMELOCK_DELAY_SECS) as u64
    }
}

/// A multi-sig governance proposal.
pub struct Proposal {
    /// The address that created the proposal.
    pub creator: Address,
    /// Human-readable description.
    pub description: String,
    /// Pool members that approved the proposal, in order.
    pub approvals: Vec<Address>,
    /// Whether the proposal was executed.
    pub executed: bool,
}

/// A proposal as plain values.
pub struct ProposalView {
    pub creator: Seq<char>,
    pub description: Seq<char>,
    pub approvals: Seq<Seq<char>>,
    pub executed: bool,
}

impl View for Proposal {
    type V = ProposalView;

    open spec fn view(&self) -> ProposalView {
        ProposalView {
            creator: self.creator@,
            description: self.description@,
            approvals: addr_seq(self.approvals@),
            executed: self.executed,
        }
    }
}

/// Lifecycle state of an upgrade proposal.
#[derive(Clone, Copy, PartialEq, Eq, Debug, Structural)]
pub enum ProposalStatus {
    /// Collecting votes.
    Pending,
    /// Reached quorum; awaiting execution.
    Approved,
    /// Applied. Terminal.
    Executed,
    /// Withdrawn by the proposer. Terminal.
    Cancelled,
    /// The voting window closed before quorum. Terminal.
    Expired,
}

/// A vote on an upgrade proposal and its weight.
pub struct Vote {
    pub voter: Address,
    pub weight: u32,
}

/// A multi-sig proposal to upgrade contract WASM.
pub struct UpgradeProposal {
    /// The submitter, the only address that may cancel it.
    pub proposer: Address,
    /// The contracts to upgrade.
    pub targets: Vec<Address>,
    /// One vote per voter, in casting order.
    pub votes: Vec<Vote>,
    /// Approval threshold snapshotted at submission.
    pub quorum: u64,
    /// Current lifecycle state.
    pub status: ProposalStatus,
    /// Close of the voting window (unix seconds).
    pub expires_at: u64,
    /// When the post-quorum timelock expires, once set.
    pub timelock_expires_at: Option<u64>,
}

/// An upgrade proposal as plain values.
pub struct UpgradeProposalView {
    pub proposer: Seq<char>,
    pub targets: Seq<Seq<char>>,
    pub votes: Seq<(Seq<char>, u32)>,
    pub quorum: u64,
    pub status: ProposalStatus,
    pub expires_at: u64,
    pub timelock_expires_at: Option<u64>,
}

/// Votes as (voter, weight) pairs.
pub open spec fn vote_views(votes: Seq<Vote>) -> Seq<(Seq<char>, u32)> {
    votes.map_values(|v: Vote| (v.voter@, v.weight))
}

impl View for UpgradeProposal {
    type V = UpgradeProposalView;

    open spec fn view(&self) -> UpgradeProposalView {
        UpgradeProposalView {
            proposer: self.proposer@,
            targets: addr_seq(self.targets@),
            votes: vote_views(self.votes@),
            quorum: self.quorum,
            status: self.status,
            expires_at: self.expires_at,
            timelock_expires_at: self.timelock_expires_at,
        }
    }
}

/// The summed weight of a list of votes.
pub open spec fn vote_total(votes: Seq<(Seq<char>, u32)>) -> int
    decreases votes.len(),
{
    if votes.len() == 0 {
        0
    } else {
        vote_total(votes.drop_last()) + votes.last().1
    }
}

/// Whether `voter` has a vote in `votes`.
pub open spec fn has_voted(votes: Seq<(Seq<char>, u32)>, voter: Seq<char>) -> bool {
    exists|i: int| 0 <= i < votes.len() && #[trigger] votes[i].0 == voter
}

/// A WASM hash as raw bytes.
pub struct WasmHash {
    bytes: Vec<u8>,
}

impl View for WasmHash {
    type V = Seq<u8>;

    closed spec fn view(&self) -> Seq<u8> {
        self.bytes@
    }
}

impl WasmHash {
    /// Wraps raw hash bytes.
    pub fn new(bytes: Vec<u8>) -> (r: WasmHash)
        ensures
            r@ == bytes@,
    {
        WasmHash { bytes }
    }

    /// The number of bytes of the hash.
    pub fn len(&self) -> (r: usize)
        ensures
            r == self@.len(),
    {
        self.bytes.len()
    }

    /// Whether the hash is 32 zero bytes.
    pub fn is_all_zero(&self) -> (r: bool)
        ensures
            r == (self@ == Seq::<u8>::new(32, |i: int| 0u8)),
    {
        if self.bytes.len() != 32 {
            assert(self@.len() != Seq::<u8>::new(32, |i: int| 0u8).len());
            return false;
        }
        let mut i: usize = 0;
        while i < 32
            invariant
                self.bytes@.len() == 32,
                i <= 32,
                forall|j: int| 0 <= j < i ==> self.bytes@[j] == 0u8,
            decreases 32 - i,
        {
            if self.bytes[i] != 0 {
                assert(self@[i as int] != Seq::<u8>::new(32, |i: int| 0u8)[i as int]);
                return false;
            }
            i = i + 1;
        }
        assert(self@ =~= Seq::<u8>::new(32, |i: int| 0u8));
        true
    }
}

impl LedgerKey for WasmHash {
    fn key_eq(&self, other: &Self) -> (r: bool) {
        if self.bytes.len() != other.bytes.len() {
            return false;
        }
        let mut i: usize = 0;
        while i < self.bytes.len()
            invariant
                self.bytes@.len() == other.bytes@.len(),
                i <= self.bytes@.len(),
                forall|j: int| 0 <= j < i ==> self.bytes@[j] == other.bytes@[j],
            decreases self.bytes@.len() - i,
        {
            if self.bytes[i] != other.bytes[i] {
                return false;
            }
            i = i + 1;
        }
        assert(self.bytes@ =~= other.bytes@);
        true
    }

    fn key_clone(&self) -> (r: Self) {
        let mut out: Vec<u8> = Vec::new();
        let mut i: usize = 0;
        while i < self.bytes.len()
            invariant
                i <= self.bytes@.len(),
                out@ == self.bytes@.subrange(0, i as int),
            decreases self.bytes@.len() - i,
        {
            out.push(self.bytes[i]);
            i = i + 1;
            assert(out@ =~= self.bytes@.subrange(0, i as int));
        }
        assert(out@ =~= self.bytes@);
        WasmHash { bytes: out }
    }
}

/// The governance ledger of the admin module.
pub struct Governance {
    /// The configured admin pool, if one was set.
    pub pool: Option<Vec<Address>>,
    /// The configured approval threshold, if one was set.
    pub threshold: Option<u32>,
    /// Governance proposals by identifier.
    pub proposals: LedgerMap<u64, Proposal>,
    /// The next governance proposal identifier, once one was issued.
    pub proposal_counter: Option<u64>,
    /// Unlock time of each quorate governance proposal.
    pub timelocks: LedgerMap<u64, u64>,
    /// Upgrade proposals by identifier.
    pub upgrade_proposals: LedgerMap<u64, UpgradeProposal>,
    /// The next upgrade proposal identifier, once one was issued.
    pub upgrade_counter: Option<u64>,
    /// WASM hashes registered as upgrade targets.
    pub installed_hashes: LedgerMap<WasmHash, bool>,
}

/// The governance ledger as plain values.
pub struct GovernanceView {
    pub pool: Option<Seq<Seq<char>>>,
    pub threshold: Option<u32>,
    pub proposals: Map<u64, ProposalView>,
    pub proposal_counter: Option<u64>,
    pub timelocks: Map<u64, u64>,
    pub upgrade_proposals: Map<u64, UpgradeProposalView>,
    pub upgrade_counter: Option<u64>,
    pub installed_hashes: Map<Seq<u8>, bool>,
}

impl View for Governance {
    type V = GovernanceView;

    open spec fn view(&self) -> GovernanceView {
        GovernanceView {
            pool: match self.pool {
                Some(p) => Some(addr_seq(p@)),
                None => None,
            },
            threshold: self.threshold,
            proposals: self.proposals@.map_values(|p: Proposal| p@),
            proposal_counter: self.proposal_counter,
            timelocks: self.timelocks@,
            upgrade_proposals: self.upgrade_proposals@.map_values(|p: UpgradeProposal| p@),
            upgrade_counter: self.upgrade_counter,
            installed_hashes: self.installed_hashes@,
        }
    }
}

/// The admin pool: the configured pool, else the admin alone, else empty.
pub open spec fn pool_members(g: GovernanceView, admin: Option<Seq<char>>) -> Seq<Seq<char>> {
    match g.pool {
        Some(p) => p,
        None => match admin {
            Some(a) => seq![a],
            None => Seq::empty(),
        },
    }
}

/// The approval threshold: the configured one, else 1.
pub open spec fn threshold_of(g: GovernanceView) -> u32 {
    match g.threshold {
        Some(t) => t,
        None => 1,
    }
}

/// Whether a proposal has as many approvals as the threshold asks.
pub open spec fn proposal_ready(g: GovernanceView, p: ProposalView) -> bool {
    p.approvals.len() >= threshold_of(g)
}

/// The value an optional counter stands for.
pub open spec fn counter_value(c: Option<u64>) -> u64 {
    match c {
        Some(v) => v,
        None => 0,
    }
}

/// The timelocks after a proposal `id` with the view `p` was written at
/// `now`: its unlock time is recorded when it is quorate and none is
/// recorded yet.
pub open spec fn timelocks_after(g: GovernanceView, id: u64, p: ProposalView, now: u64) -> Map<u64, u64> {
    if !g.timelocks.contains_key(id) && proposal_ready(g, p) {
        g.timelocks.insert(id, unlock_time(now))
    } else {
        g.timelocks
    }
}

impl Governance {
    /// An empty governance ledger.
    pub fn new() -> (r: Governance)
        ensures
            r@ == (GovernanceView {
                pool: None,
                threshold: None,
                proposals: Map::empty(),
                proposal_counter: None,
                timelocks: Map::empty(),
                upgrade_proposals: Map::empty(),
                upgrade_counter: None,
                installed_hashes: Map::empty(),
            }),
    {
        let g = Governance {
            pool: None,
            threshold: None,
            proposals: LedgerMap::new(),
            proposal_counter: None,
            timelocks: LedgerMap::new(),
            upgrade_proposals: LedgerMap::new(),
            upgrade_counter: None,
            installed_hashes: LedgerMap::new(),
        };
        assert(g@.proposals =~= Map::empty());
        assert(g@.upgrade_proposals =~= Map::empty());
        g
    }
}

/// Configures the admin pool and the approval threshold.
pub fn set_admin_pool(gov: &mut Governance, ac: &AccessControl, pool: Vec<Address>, threshold: u32) -> (r: Result<(), AdminError>)
    requires
        ac.admin is Some,
    ensures
        r == (if threshold == 0 || threshold > pool@.len() {
            Err(AdminError::InvalidThreshold)
        } else if addr_seq(pool@).contains(zero_address_view()) {
            Err(AdminError::InvalidAddress)
        } else {
            Ok(())
        }),
        r is Err ==> final(gov)@ == old(gov)@,
        r is Ok ==> final(gov)@ == (GovernanceView {
            pool: Some(addr_seq(pool@)),
            threshold: Some(threshold),
            ..old(gov)@
        }),
{
    if threshold == 0 || threshold as usize > pool.len() {
        return Err(AdminError::InvalidThreshold);
    }
    let mut i: usize = 0;
    while i < pool.len()
        invariant
            i <= pool@.len(),
            threshold != 0,
            threshold <= pool@.len(),
            forall|j: int| 0 <= j < i ==> pool@[j]@ != zero_address_view(),
        decreases pool@.len() - i,
    {
        if is_zero_address(&pool[i]) {
            assert(addr_seq(pool@).len() == pool@.len());
            assert(addr_seq(pool@)[i as int] == zero_address_view());
            assert(addr_seq(pool@).contains(zero_address_view()));
            return Err(AdminError::InvalidAddress);
        }
        i = i + 1;
    }
    proof {
        if addr_seq(pool@).contains(zero_address_view()) {
            let k = choose|k: int| 0 <= k < addr_seq(pool@).len() && #[trigger] addr_seq(pool@)[k] == zero_address_view();
            assert(pool@[k]@ == zero_address_view());
        }
    }
    gov.pool = Some(pool);
    gov.threshold = Some(threshold);
    Ok(())
}

/// The admin pool: the configured pool, else the admin alone, else empty.
pub fn get_admin_pool(gov: &Governance, ac: &AccessControl) -> (r: Vec<Address>)
    ensures
        addr_seq(r@) == pool_members(gov@, ac.admin_view()),
{
    match &gov.pool {
        Some(p) => duplicate_addresses(p),
        None => match &ac.admin {
            Some(a) => {
                let mut v: Vec<Address> = Vec::new();
                v.push(a.duplicate());
                assert(addr_seq(v@) =~= seq![a@]);
                v
            },
            None => {
                let v: Vec<Address> = Vec::new();
                assert(addr_seq(v@) =~= Seq::<Seq<char>>::empty());
                v
            },
        },
    }
}

/// Whether `address` is a member of the admin pool.
fn in_admin_pool(gov: &Governance, ac: &AccessControl, address: &Address) -> (r: bool)
    ensures
        r == pool_members(gov@, ac.admin_view()).contains(address@),
{
    let pool = get_admin_pool(gov, ac);
    contains_address(&pool, address)
}

/// The approval threshold: the configured one, else 1.
pub fn get_threshold(gov: &Governance) -> (r: u32)
    ensures
        r == threshold_of(gov@),
{
    match gov.threshold {
        Some(t) => t,
        None => 1,
    }
}

/// Whether proposal `proposal_id` has as many approvals as the threshold.
pub fn is_proposal_ready(gov: &Governance, proposal_id: u64) -> (r: Result<bool, AdminError>)
    ensures
        r == (if gov@.proposals.contains_key(proposal_id) {
            Ok(proposal_ready(gov@, gov@.proposals[proposal_id]))
        } else {
            Err(AdminError::ProposalNotFound)
        }),
{
    match gov.proposals.get(&proposal_id) {
        Some(p) => {
            let t = get_threshold(gov);
            Ok(p.approvals.len() >= t as usize)
        },
        None => Err(AdminError::ProposalNotFound),
    }
}

/// Records the unlock time of `proposal_id` when it has just become quorate.
fn start_timelock_if_quorate(gov: &mut Governance, proposal_id: u64, now: u64)
    requires
        old(gov)@.proposals.contains_key(proposal_id),
    ensures
        final(gov)@ == (GovernanceView {
            timelocks: timelocks_after(old(gov)@, proposal_id, old(gov)@.proposals[proposal_id], now),
            ..old(gov)@
        }),
{
    if gov.timelocks.contains_key(&proposal_id) {
        return;
    }
    let ready = is_proposal_ready(gov, proposal_id);
    match ready {
        Ok(true) => {
            let unlock_at = now.saturating_add(TIMELOCK_DELAY_SECS);
            gov.timelocks.set(proposal_id, unlock_at);
        },
        _ => {},
    }
}

/// Creates a proposal authored by `creator`, who approves it at once; the
/// timelock starts if that approval already meets the threshold.
pub fn create_proposal(gov: &mut Governance, ac: &AccessControl, creator: &Address, description: String, now: u64) -> (r: Result<u64, AdminError>)
    requires
        pool_members(old(gov)@, ac.admin_view()).contains(creator@) ==> counter_value(old(gov)@.proposal_counter) < u64::MAX,
    ensures
        !pool_members(old(gov)@, ac.admin_view()).contains(creator@) ==> r == Err::<u64, AdminError>(AdminError::UnauthorizedRole)
            && final(gov)@ == old(gov)@,
        pool_members(old(gov)@, ac.admin_view()).contains(creator@) ==> ({
            let id = counter_value(old(gov)@.proposal_counter);
            let p = ProposalView { creator: creator@, description: description@, approvals: seq![creator@], executed: false };
            let g1 = GovernanceView {
                proposals: old(gov)@.proposals.insert(id, p),
                proposal_counter: Some((id + 1) as u64),
                ..old(gov)@
            };
            &&& r == Ok::<u64, AdminError>(id)
            &&& final(gov)@ == (GovernanceView { timelocks: timelocks_after(g1, id, p, now), ..g1 })
        }),
{
    if !in_admin_pool(gov, ac, creator) {
        return Err(AdminError::UnauthorizedRole);
    }
    let id = match gov.proposal_counter {
        Some(c) => c,
        None => 0,
    };
    gov.proposal_counter = Some(id + 1);
    let mut approvals: Vec<Address> = Vec::new();
    approvals.push(creator.duplicate());
    let proposal = Proposal { creator: creator.duplicate(), description, approvals, executed: false };
    assert(proposal@.approvals =~= seq![creator@]);
    let ghost pv = proposal@;
    gov.proposals.set(id, proposal);
    assert(gov@.proposals =~= old(gov)@.proposals.insert(id, pv));
    start_timelock_if_quorate(gov, id, now);
    Ok(id)
}

/// `p` with `a` appended to its approvals.
pub open spec fn approved_by(p: ProposalView, a: Seq<char>) -> ProposalView {
    ProposalView { approvals: p.approvals.push(a), ..p }
}

/// `p` marked executed.
pub open spec fn executed_view(p: ProposalView) -> ProposalView {
    ProposalView { executed: true, ..p }
}

/// Why `admin`'s approval of governance proposal `id` is refused, if it is.
pub open spec fn approve_proposal_error(g: GovernanceView, pool_admin: Option<Seq<char>>, admin: Seq<char>, id: u64) -> Option<AdminError> {
    if !pool_members(g, pool_admin).contains(admin) {
        Some(AdminError::UnauthorizedRole)
    } else if !g.proposals.contains_key(id) {
        Some(AdminError::ProposalNotFound)
    } else if g.proposals[id].executed {
        Some(AdminError::ProposalAlreadyExecuted)
    } else if g.proposals[id].approvals.contains(admin) {
        Some(AdminError::ProposalAlreadyApproved)
    } else {
        None
    }
}

/// Approves proposal `proposal_id` on behalf of pool member `admin`; the
/// timelock starts if this approval completes the quorum.
pub fn approve_proposal(gov: &mut Governance, ac: &AccessControl, admin: &Address, proposal_id: u64, now: u64) -> (r: Result<(), AdminError>)
    ensures
        r == outcome(approve_proposal_error(old(gov)@, ac.admin_view(), admin@, proposal_id)),
        r is Err ==> final(gov)@ == old(gov)@,
        r is Ok ==> ({
            let p = approved_by(old(gov)@.proposals[proposal_id], admin@);
            let g1 = GovernanceView { proposals: old(gov)@.proposals.insert(proposal_id, p), ..old(gov)@ };
            final(gov)@ == (GovernanceView { timelocks: timelocks_after(g1, proposal_id, p, now), ..g1 })
        }),
{
    if !in_admin_pool(gov, ac, admin) {
        return Err(AdminError::UnauthorizedRole);
    }
    match gov.proposals.get(&proposal_id) {
        None => {
            return Err(AdminError::ProposalNotFound);
        },
        Some(p) => {
            if p.executed {
                return Err(AdminError::ProposalAlreadyExecuted);
            }
            if contains_address(&p.approvals, admin) {
                return Err(AdminError::ProposalAlreadyApproved);
            }
        },
    }
    let mut proposal = gov.proposals.take(&proposal_id).unwrap();
    let ghost before = proposal@;
    proposal.approvals.push(admin.duplicate());
    assert(proposal@.approvals =~= before.approvals.push(admin@));
    let ghost pv = proposal@;
    gov.proposals.set(proposal_id, proposal);
    assert(gov@.proposals =~= old(gov)@.proposals.insert(proposal_id, pv));
    start_timelock_if_quorate(gov, proposal_id, now);
    Ok(())
}

/// Why marking governance proposal `id` executed is refused, if it is.
pub open spec fn mark_executed_error(g: GovernanceView, id: u64) -> Option<AdminError> {
    if !g.proposals.contains_key(id) {
        Some(AdminError::ProposalNotFound)
    } else if g.proposals[id].executed {
        Some(AdminError::ProposalAlreadyExecuted)
    } else if !proposal_ready(g, g.proposals[id]) {
        Some(AdminError::ThresholdNotMet)
    } else {
        None
    }
}

/// Marks proposal `proposal_id` executed once it meets the threshold.
pub fn mark_executed(gov: &mut Governance, ac: &AccessControl, proposal_id: u64) -> (r: Result<(), AdminError>)
    requires
        ac.admin is Some,
    ensures
        r == outcome(mark_executed_error(old(gov)@, proposal_id)),
        r is Err ==> final(gov)@ == old(gov)@,
        r is Ok ==> final(gov)@ == (GovernanceView {
            proposals: old(gov)@.proposals.insert(proposal_id, executed_view(old(gov)@.proposals[proposal_id])),
            ..old(gov)@
        }),
{
    match gov.proposals.get(&proposal_id) {
        None => {
            return Err(AdminError::ProposalNotFound);
        },
        Some(p) => {
            if p.executed {
                return Err(AdminError::ProposalAlreadyExecuted);
            }
        },
    }
    match is_proposal_ready(gov, proposal_id) {
        Ok(true) => {},
        _ => {
            return Err(AdminError::ThresholdNotMet);
        },
    }
    set_executed(gov, proposal_id);
    Ok(())
}

/// Sets the executed flag of an existing proposal.
fn set_executed(gov: &mut Governance, proposal_id: u64)
    requires
        old(gov)@.proposals.contains_key(proposal_id),
    ensures
        final(gov)@ == (GovernanceView {
            proposals: old(gov)@.proposals.insert(proposal_id, executed_view(old(gov)@.proposals[proposal_id])),
            ..old(gov)@
        }),
{
    let mut proposal = gov.proposals.take(&proposal_id).unwrap();
    proposal.executed = true;
    let ghost pv = proposal@;
    gov.proposals.set(proposal_id, proposal);
    assert(gov@.proposals =~= old(gov)@.proposals.insert(proposal_id, pv));
}

/// Why `caller`'s cancellation of governance proposal `id` is refused, if
/// it is.
pub open spec fn proposal_cancel_error(g: GovernanceView, caller: Seq<char>, id: u64) -> Option<AdminError> {
    if !g.proposals.contains_key(id) {
        Some(AdminError::ProposalNotFound)
    } else if g.proposals[id].executed {
        Some(AdminError::ProposalAlreadyExecuted)
    } else if caller != g.proposals[id].creator {
        Some(AdminError::NotProposalCreator)
    } else {
        None
    }
}

impl Governance {
    /// Cancels governance proposal `proposal_id` on behalf of its creator
    /// while it is not executed: the proposal and its timelock are removed.
    pub fn cancel_proposal(&mut self, caller: &Address, proposal_id: u64) -> (r: Result<(), AdminError>)
        ensures
            r == outcome(proposal_cancel_error(old(self)@, caller@, proposal_id)),
            r is Err ==> final(self)@ == old(self)@,
            r is Ok ==> final(self)@ == (GovernanceView {
                proposals: old(self)@.proposals.remove(proposal_id),
                timelocks: old(self)@.timelocks.remove(proposal_id),
                ..old(self)@
            }),
    {
        match self.proposals.get(&proposal_id) {
            None => {
                return Err(AdminError::ProposalNotFound);
            },
            Some(p) => {
                if p.executed {
                    return Err(AdminError::ProposalAlreadyExecuted);
                }
                if !caller.same(&p.creator) {
                    return Err(AdminError::NotProposalCreator);
                }
            },
        }
        let ghost before = self.proposals@;
        self.proposals.remove(&proposal_id);
        if self.timelocks.contains_key(&proposal_id) {
            self.timelocks.remove(&proposal_id);
        }
        proof {
            assert(self.proposals@.map_values(|p: Proposal| p@)
                =~= before.map_values(|p: Proposal| p@).remove(proposal_id));
            assert(self.timelocks@ =~= old(self)@.timelocks.remove(proposal_id));
        }
        Ok(())
    }
}

/// The unlock time of proposal `proposal_id`, once it reached quorum.
pub fn get_proposal_unlock_time(gov: &Governance, proposal_id: u64) -> (r: Option<u64>)
    ensures
        r == (if gov@.timelocks.contains_key(proposal_id) { Some(gov@.timelocks[proposal_id]) } else { None }),
{
    match gov.timelocks.get(&proposal_id) {
        Some(t) => Some(*t),
        None => None,
    }
}

/// Checks that the timelock of `proposal_id` has expired at `now`.
pub fn require_timelock_expired(gov: &Governance, proposal_id: u64, now: u64) -> (r: Result<(), AdminError>)
    ensures
        r == (if !gov@.timelocks.contains_key(proposal_id) {
            Err(AdminError::QuorumNotMet)
        } else if now < gov@.timelocks[proposal_id] {
            Err(AdminError::TimelockActive)
        } else {
            Ok(())
        }),
{
    let expires_at = match gov.timelocks.get(&proposal_id) {
        Some(t) => *t,
        None => {
            return Err(AdminError::QuorumNotMet);
        },
    };
    if now < expires_at {
        return Err(AdminError::TimelockActive);
    }
    Ok(())
}

/// Why executing proposal `id` by `executor` at `now` is refused, if it is.
pub open spec fn execute_upgrade_error(g: GovernanceView, admin: Option<Seq<char>>, executor: Seq<char>, id: u64, now: u64) -> Option<AdminError> {
    if !pool_members(g, admin).contains(executor) {
        Some(AdminError::UnauthorizedRole)
    } else if !g.proposals.contains_key(id) {
        Some(AdminError::ProposalNotFound)
    } else if g.proposals[id].executed {
        Some(AdminError::ProposalAlreadyExecuted)
    } else if !proposal_ready(g, g.proposals[id]) {
        Some(AdminError::QuorumNotMet)
    } else if !g.timelocks.contains_key(id) {
        Some(AdminError::QuorumNotMet)
    } else if now < g.timelocks[id] {
        Some(AdminError::TimelockActive)
    } else {
        None
    }
}

/// The outcome that an optional refusal stands for.
pub open spec fn outcome(e: Option<AdminError>) -> Result<(), AdminError> {
    match e {
        Some(err) => Err(err),
        None => Ok(()),
    }
}

/// Authorizes the WASM upgrade carried by proposal `proposal_id`: the
/// executor is a pool member, the proposal meets quorum and its timelock has
/// expired. On success the proposal is marked executed; installing the WASM
/// is left to the caller.
pub fn execute_upgrade(gov: &mut Governance, ac: &AccessControl, executor: &Address, proposal_id: u64, now: u64) -> (r: Result<(), AdminError>)
    ensures
        r == outcome(execute_upgrade_error(old(gov)@, ac.admin_view(), executor@, proposal_id, now)),
        r is Err ==> final(gov)@ == old(gov)@,
        r is Ok ==> final(gov)@ == (GovernanceView {
            proposals: old(gov)@.proposals.insert(proposal_id, executed_view(old(gov)@.proposals[proposal_id])),
            ..old(gov)@
        }),
{
    execute_upgrade_inner(gov, ac, executor, proposal_id, now)
}

fn execute_upgrade_inner(gov: &mut Governance, ac: &AccessControl, executor: &Address, proposal_id: u64, now: u64) -> (r: Result<(), AdminError>)
    ensures
        r == outcome(execute_upgrade_error(old(gov)@, ac.admin_view(), executor@, proposal_id, now)),
        r is Err ==> final(gov)@ == old(gov)@,
        r is Ok ==> final(gov)@ == (GovernanceView {
            proposals: old(gov)@.proposals.insert(proposal_id, executed_view(old(gov)@.proposals[proposal_id])),
            ..old(gov)@
        }),
{
    if !in_admin_pool(gov, ac, executor) {
        return Err(AdminError::UnauthorizedRole);
    }
    match gov.proposals.get(&proposal_id) {
        None => {
            return Err(AdminError::ProposalNotFound);
        },
        Some(p) => {
            if p.executed {
                return Err(AdminError::ProposalAlreadyExecuted);
            }
        },
    }
    match is_proposal_ready(gov, proposal_id) {
        Ok(true) => {},
        _ => {
            return Err(AdminError::QuorumNotMet);
        },
    }
    require_timelock_expired(gov, proposal_id, now)?;
    set_executed(gov, proposal_id);
    Ok(())
}

/// Whether every address of `pool` is among `approvals`.
pub open spec fn approved_by_all(pool: Seq<Seq<char>>, approvals: Seq<Seq<char>>) -> bool {
    forall|a: Seq<char>| pool.contains(a) ==> approvals.contains(a)
}

/// Whether every address of `pool` is among `approvals`.
fn all_approved(pool: &Vec<Address>, approvals: &Vec<Address>) -> (r: bool)
    ensures
        r == approved_by_all(addr_seq(pool@), addr_seq(approvals@)),
{
    let mut i: usize = 0;
    while i < pool.len()
        invariant
            i <= pool@.len(),
            forall|j: int| 0 <= j < i ==> addr_seq(approvals@).contains(#[trigger] addr_seq(pool@)[j]),
        decreases pool@.len() - i,
    {
        if !contains_address(approvals, &pool[i]) {
            proof {
                assert(addr_seq(pool@)[i as int] == pool@[i as int]@);
                assert(addr_seq(pool@).contains(pool@[i as int]@));
            }
            return false;
        }
        proof {
            assert(addr_seq(pool@)[i as int] == pool@[i as int]@);
        }
        i = i + 1;
    }
    proof {
        assert forall|a: Seq<char>| addr_seq(pool@).contains(a) implies addr_seq(approvals@).contains(a) by {
            let k = choose|k: int| 0 <= k < addr_seq(pool@).len() && #[trigger] addr_seq(pool@)[k] == a;
        }
    }
    true
}

/// Why executing governance proposal `id` at once by `executor` is
/// refused, if it is.
pub open spec fn emergency_error(g: GovernanceView, admin: Option<Seq<char>>, executor: Seq<char>, id: u64) -> Option<AdminError> {
    if !pool_members(g, admin).contains(executor) {
        Some(AdminError::UnauthorizedRole)
    } else if !g.proposals.contains_key(id) {
        Some(AdminError::ProposalNotFound)
    } else if g.proposals[id].executed {
        Some(AdminError::ProposalAlreadyExecuted)
    } else if !approved_by_all(pool_members(g, admin), g.proposals[id].approvals) {
        Some(AdminError::QuorumNotMet)
    } else {
        None
    }
}

/// Executes immediately, bypassing the timelock, a proposal that every
/// current pool member approved. On success the proposal is marked executed.
pub fn emergency_execute_upgrade(gov: &mut Governance, ac: &AccessControl, executor: &Address, proposal_id: u64) -> (r: Result<(), AdminError>)
    ensures
        r == outcome(emergency_error(old(gov)@, ac.admin_view(), executor@, proposal_id)),
        r is Err ==> final(gov)@ == old(gov)@,
        r is Ok ==> final(gov)@ == (GovernanceView {
            proposals: old(gov)@.proposals.insert(proposal_id, executed_view(old(gov)@.proposals[proposal_id])),
            ..old(gov)@
        }),
{
    let pool = get_admin_pool(gov, ac);
    if !contains_address(&pool, executor) {
        return Err(AdminError::UnauthorizedRole);
    }
    match gov.proposals.get(&proposal_id) {
        None => {
            return Err(AdminError::ProposalNotFound);
        },
        Some(p) => {
            if p.executed {
                return Err(AdminError::ProposalAlreadyExecuted);
            }
            if !all_approved(&pool, &p.approvals) {
                return Err(AdminError::QuorumNotMet);
            }
        },
    }
    set_executed(gov, proposal_id);
    Ok(())
}

/// The summed weight of `votes`, computed without overflow.
fn vote_tally(votes: &Vec<Vote>) -> (r: u128)
    ensures
        r == vote_total(vote_views(votes@)),
{
    let mut acc: u128 = 0;
    let mut i: usize = 0;
    while i < votes.len()
        invariant
            i <= votes@.len(),
            acc == vote_total(vote_views(votes@).subrange(0, i as int)),
            acc <= i * 4294967295,
        decreases votes@.len() - i,
    {
        proof {
            assert(vote_views(votes@).subrange(0, i + 1).drop_last() =~= vote_views(votes@).subrange(0, i as int));
        }
        acc = acc + votes[i].weight as u128;
        i = i + 1;
    }
    assert(vote_views(votes@).subrange(0, votes@.len() as int) =~= vote_views(votes@));
    acc
}

/// Checks that the weighted tally of `proposal`'s votes meets its quorum.
pub fn require_upgrade_quorum_met(proposal: &UpgradeProposal) -> (r: Result<(), AdminError>)
    ensures
        r == (if vote_total(proposal@.votes) < proposal.quorum { Err(AdminError::QuorumNotMet) } else { Ok(()) }),
{
    let tally = vote_tally(&proposal.votes);
    if tally < proposal.quorum as u128 {
        return Err(AdminError::QuorumNotMet);
    }
    Ok(())
}

/// Whether `voter` already voted among `votes`.
fn find_vote(votes: &Vec<Vote>, voter: &Address) -> (r: bool)
    ensures
        r == has_voted(vote_views(votes@), voter@),
{
    let mut i: usize = 0;
    while i < votes.len()
        invariant
            i <= votes@.len(),
            forall|j: int| 0 <= j < i ==> votes@[j].voter@ != voter@,
        decreases votes@.len() - i,
    {
        if votes[i].voter.same(voter) {
            assert(vote_views(votes@)[i as int].0 == voter@);
            return true;
        }
        i = i + 1;
    }
    proof {
        if has_voted(vote_views(votes@), voter@) {
            let k = choose|k: int| 0 <= k < vote_views(votes@).len() && #[trigger] vote_views(votes@)[k].0 == voter@;
            assert(votes@[k].voter@ == voter@);
        }
    }
    false
}

/// The post-quorum timelock of an upgrade proposal whose status is now
/// `status`: it starts at `now` when the proposal is `Approved` and none was
/// recorded yet, and a recorded one is never moved.
pub open spec fn upgrade_timelock_after(status: ProposalStatus, timelock: Option<u64>, now: u64) -> Option<u64> {
    if status == ProposalStatus::Approved && timelock is None {
        Some(unlock_time(now))
    } else {
        timelock
    }
}

/// `p` after `voter`'s vote of weight 1 at `now`: approved once the tally
/// meets quorum, which starts its timelock.
pub open spec fn voted_view(p: UpgradeProposalView, voter: Seq<char>, now: u64) -> UpgradeProposalView {
    let votes = p.votes.push((voter, 1u32));
    let status = if vote_total(votes) >= p.quorum { ProposalStatus::Approved } else { p.status };
    UpgradeProposalView {
        votes: votes,
        status: status,
        timelock_expires_at: upgrade_timelock_after(status, p.timelock_expires_at, now),
        ..p
    }
}

/// Why `voter`'s approval of upgrade proposal `id` at `now` is refused, if
/// it is.
pub open spec fn approve_upgrade_error(g: GovernanceView, admin: Option<Seq<char>>, voter: Seq<char>, id: u64, now: u64) -> Option<AdminError> {
    if !pool_members(g, admin).contains(voter) {
        Some(AdminError::UnauthorizedRole)
    } else if !g.upgrade_proposals.contains_key(id) {
        Some(AdminError::UpgradeProposalNotFound)
    } else if g.upgrade_proposals[id].status != ProposalStatus::Pending || now >= g.upgrade_proposals[id].expires_at {
        Some(AdminError::ProposalNotPending)
    } else if has_voted(g.upgrade_proposals[id].votes, voter) {
        Some(AdminError::DuplicateVote)
    } else {
        None
    }
}

/// Starts the timelock of an upgrade proposal that is `Approved` and has
/// none yet.
fn start_upgrade_timelock_if_quorate(proposal: &mut UpgradeProposal, now: u64)
    ensures
        final(proposal)@ == (UpgradeProposalView {
            timelock_expires_at: upgrade_timelock_after(old(proposal).status, old(proposal).timelock_expires_at, now),
            ..old(proposal)@
        }),
{
    if proposal.status == ProposalStatus::Approved && proposal.timelock_expires_at.is_none() {
        proposal.timelock_expires_at = Some(now.saturating_add(TIMELOCK_DELAY_SECS));
    }
}

/// Records `voter`'s approval of upgrade proposal `proposal_id` at `now`,
/// moving it to `Approved` once the tally meets its quorum.
pub fn approve_upgrade(gov: &mut Governance, ac: &AccessControl, voter: &Address, proposal_id: u64, now: u64) -> (r: Result<(), AdminError>)
    ensures
        r == outcome(approve_upgrade_error(old(gov)@, ac.admin_view(), voter@, proposal_id, now)),
        r is Err ==> final(gov)@ == old(gov)@,
        r is Ok ==> final(gov)@ == (GovernanceView {
            upgrade_proposals: old(gov)@.upgrade_proposals.insert(proposal_id,
                voted_view(old(gov)@.upgrade_proposals[proposal_id], voter@, now)),
            ..old(gov)@
        }),
{
    if !in_admin_pool(gov, ac, voter) {
        return Err(AdminError::UnauthorizedRole);
    }
    match gov.upgrade_proposals.get(&proposal_id) {
        None => {
            return Err(AdminError::UpgradeProposalNotFound);
        },
        Some(p) => {
            if p.status != ProposalStatus::Pending || now >= p.expires_at {
                return Err(AdminError::ProposalNotPending);
            }
            if find_vote(&p.votes, voter) {
                return Err(AdminError::DuplicateVote);
            }
        },
    }
    let mut proposal = gov.upgrade_proposals.take(&proposal_id).unwrap();
    let ghost before = proposal@;
    proposal.votes.push(Vote { voter: voter.duplicate(), weight: 1 });
    assert(vote_views(proposal.votes@) =~= before.votes.push((voter@, 1u32)));
    let tally = vote_tally(&proposal.votes);
    if tally >= proposal.quorum as u128 {
        proposal.status = ProposalStatus::Approved;
    }
    start_upgrade_timelock_if_quorate(&mut proposal, now);
    let ghost pv = proposal@;
    assert(pv == voted_view(before, voter@, now));
    gov.upgrade_proposals.set(proposal_id, proposal);
    assert(gov@.upgrade_proposals =~= old(gov)@.upgrade_proposals.insert(proposal_id, pv));
    Ok(())
}

/// Why `caller`'s cancellation of upgrade proposal `id` is refused, if it is.
pub open spec fn cancel_error(g: GovernanceView, caller: Seq<char>, id: u64) -> Option<AdminError> {
    if !g.upgrade_proposals.contains_key(id) {
        Some(AdminError::ProposalNotFound)
    } else if caller != g.upgrade_proposals[id].proposer {
        Some(AdminError::NotProposer)
    } else if g.upgrade_proposals[id].status == ProposalStatus::Executed {
        Some(AdminError::ProposalAlreadyExecuted)
    } else if g.upgrade_proposals[id].status == ProposalStatus::Cancelled
        || g.upgrade_proposals[id].status == ProposalStatus::Expired {
        Some(AdminError::ProposalNotCancellable)
    } else {
        None
    }
}

/// Withdraws upgrade proposal `proposal_id` on behalf of its proposer while
/// it is still `Pending` or `Approved`; the proposal stays, `Cancelled`.
pub fn cancel_proposal(gov: &mut Governance, caller: &Address, proposal_id: u64) -> (r: Result<(), AdminError>)
    ensures
        r == outcome(cancel_error(old(gov)@, caller@, proposal_id)),
        r is Err ==> final(gov)@ == old(gov)@,
        r is Ok ==> final(gov)@ == (GovernanceView {
            upgrade_proposals: old(gov)@.upgrade_proposals.insert(proposal_id,
                UpgradeProposalView { status: ProposalStatus::Cancelled, ..old(gov)@.upgrade_proposals[proposal_id] }),
            ..old(gov)@
        }),
{
    match gov.upgrade_proposals.get(&proposal_id) {
        None => {
            return Err(AdminError::ProposalNotFound);
        },
        Some(p) => {
            if !caller.same(&p.proposer) {
                return Err(AdminError::NotProposer);
            }
            match p.status {
                ProposalStatus::Executed => {
                    return Err(AdminError::ProposalAlreadyExecuted);
                },
                ProposalStatus::Cancelled | ProposalStatus::Expired => {
                    return Err(AdminError::ProposalNotCancellable);
                },
                ProposalStatus::Pending | ProposalStatus::Approved => {},
            }
        },
    }
    let mut proposal = gov.upgrade_proposals.take(&proposal_id).unwrap();
    proposal.status = ProposalStatus::Cancelled;
    let ghost pv = proposal@;
    gov.upgrade_proposals.set(proposal_id, proposal);
    assert(gov@.upgrade_proposals =~= old(gov)@.upgrade_proposals.insert(proposal_id, pv));
    Ok(())
}

/// Registers `wasm_hash` as an upgrade target; `admin` must hold `Admin`.
pub fn register_wasm_hash(gov: &mut Governance, ac: &AccessControl, admin: &Address, wasm_hash: WasmHash) -> (r: Result<(), AdminError>)
    ensures
        r == (if ac.holds(Role::Admin, admin@) { Ok(()) } else { Err(AdminError::UnauthorizedRole) }),
        r is Err ==> final(gov)@ == old(gov)@,
        r is Ok ==> final(gov)@ == (GovernanceView {
            installed_hashes: old(gov)@.installed_hashes.insert(wasm_hash@, true),
            ..old(gov)@
        }),
{
    require_admin(ac, admin)?;
    gov.installed_hashes.set(wasm_hash, true);
    Ok(())
}

/// Whether `h` is a 32-byte hash registered as an upgrade target.
pub open spec fn hash_valid(g: GovernanceView, h: Seq<u8>) -> bool {
    h.len() == 32 && g.installed_hashes.contains_key(h) && g.installed_hashes[h]
}

/// Checks that `wasm_hash` is 32 bytes long and registered.
pub fn require_valid_wasm_hash(gov: &Governance, wasm_hash: &WasmHash) -> (r: Result<(), AdminError>)
    ensures
        r == (if hash_valid(gov@, wasm_hash@) { Ok(()) } else { Err(AdminError::InvalidWasmHash) }),
{
    if wasm_hash.len() != 32 {
        return Err(AdminError::InvalidWasmHash);
    }
    let installed = match gov.installed_hashes.get(wasm_hash) {
        Some(b) => *b,
        None => false,
    };
    if !installed {
        return Err(AdminError::InvalidWasmHash);
    }
    Ok(())
}

/// The upgrade proposal that `submitter` opens at `now` against threshold
/// `quorum` for the contract `target`.
pub open spec fn submitted_view(submitter: Seq<char>, target: Seq<char>, quorum: u64, now: u64) -> UpgradeProposalView {
    UpgradeProposalView {
        proposer: submitter,
        targets: seq![target],
        votes: seq![(submitter, 1u32)],
        quorum: quorum,
        status: if 1 >= quorum { ProposalStatus::Approved } else { ProposalStatus::Pending },
        expires_at: unlock_time(now),
        timelock_expires_at: upgrade_timelock_after(
            if 1 >= quorum { ProposalStatus::Approved } else { ProposalStatus::Pending }, None, now),
    }
}

/// Why `submitter`'s upgrade proposal to hash `h` is refused, if it is.
pub open spec fn submit_error(g: GovernanceView, admin: Option<Seq<char>>, submitter: Seq<char>, h: Seq<u8>) -> Option<AdminError> {
    if !pool_members(g, admin).contains(submitter) {
        Some(AdminError::UnauthorizedRole)
    } else if h == Seq::<u8>::new(32, |i: int| 0u8) || !hash_valid(g, h) {
        Some(AdminError::InvalidWasmHash)
    } else {
        None
    }
}

/// Submits an upgrade proposal for the contract `current_contract` to the
/// registered, non-zero hash `new_wasm_hash`; the submitter casts the first
/// vote and the current threshold becomes its quorum.
pub fn submit_upgrade_proposal(
    gov: &mut Governance,
    ac: &AccessControl,
    submitter: &Address,
    new_wasm_hash: &WasmHash,
    description: String,
    now: u64,
    current_contract: &Address,
) -> (r: Result<u64, AdminError>)
    requires
        pool_members(old(gov)@, ac.admin_view()).contains(submitter@)
            && new_wasm_hash@ != Seq::<u8>::new(32, |i: int| 0u8)
            && hash_valid(old(gov)@, new_wasm_hash@) ==> counter_value(old(gov)@.upgrade_counter) < u64::MAX,
    ensures
        r == (match submit_error(old(gov)@, ac.admin_view(), submitter@, new_wasm_hash@) {
            Some(e) => Err(e),
            None => Ok(counter_value(old(gov)@.upgrade_counter)),
        }),
        r is Err ==> final(gov)@ == old(gov)@,
        r is Ok ==> final(gov)@ == (GovernanceView {
            upgrade_proposals: old(gov)@.upgrade_proposals.insert(counter_value(old(gov)@.upgrade_counter),
                submitted_view(submitter@, current_contract@, threshold_of(old(gov)@) as u64, now)),
            upgrade_counter: Some((counter_value(old(gov)@.upgrade_counter) + 1) as u64),
            ..old(gov)@
        }),
{
    if !in_admin_pool(gov, ac, submitter) {
        return Err(AdminError::UnauthorizedRole);
    }
    if new_wasm_hash.is_all_zero() {
        return Err(AdminError::InvalidWasmHash);
    }
    require_valid_wasm_hash(gov, new_wasm_hash)?;
    let id = match gov.upgrade_counter {
        Some(c) => c,
        None => 0,
    };
    gov.upgrade_counter = Some(id + 1);
    let quorum = get_threshold(gov) as u64;
    let mut votes: Vec<Vote> = Vec::new();
    votes.push(Vote { voter: submitter.duplicate(), weight: 1 });
    let status = if 1 >= quorum { ProposalStatus::Approved } else { ProposalStatus::Pending };
    let mut targets: Vec<Address> = Vec::new();
    targets.push(current_contract.duplicate());
    let proposal = UpgradeProposal {
        proposer: submitter.duplicate(),
        targets,
        votes,
        quorum,
        status,
        expires_at: now.saturating_add(TIMELOCK_DELAY_SECS),
        timelock_expires_at: None,
    };
    let mut proposal = proposal;
    start_upgrade_timelock_if_quorate(&mut proposal, now);
    let ghost pv = proposal@;
    assert(pv.votes =~= seq![(submitter@, 1u32)]);
    assert(pv.targets =~= seq![current_contract@]);
    assert(pv == submitted_view(submitter@, current_contract@, quorum, now));
    gov.upgrade_proposals.set(id, proposal);
    assert(gov@.upgrade_proposals =~= old(gov)@.upgrade_proposals.insert(id, pv));
    Ok(id)
}

/// The ledger after the proposals `ids` are marked executed, in order.
pub open spec fn mark_all(g: GovernanceView, ids: Seq<u64>) -> GovernanceView
    decreases ids.len(),
{
    if ids.len() == 0 {
        g
    } else {
        let g1 = mark_all(g, ids.drop_last());
        GovernanceView {
            proposals: g1.proposals.insert(ids.last(), executed_view(g1.proposals[ids.last()])),
            ..g1
        }
    }
}

/// Why the batch `ids` is refused: the refusal of its first item that
/// fails once the items before it were executed.
pub open spec fn batch_error(g: GovernanceView, admin: Option<Seq<char>>, executor: Seq<char>, ids: Seq<u64>, now: u64) -> Option<AdminError>
    decreases ids.len(),
{
    if ids.len() == 0 {
        None
    } else {
        match batch_error(g, admin, executor, ids.drop_last(), now) {
            Some(e) => Some(e),
            None => execute_upgrade_error(mark_all(g, ids.drop_last()), admin, executor, ids.last(), now),
        }
    }
}

/// Marking proposals executed changes only their executed flags.
proof fn lemma_mark_all(g: GovernanceView, ids: Seq<u64>)
    requires
        forall|j: int| 0 <= j < ids.len() ==> g.proposals.contains_key(#[trigger] ids[j]),
    ensures
        mark_all(g, ids) == (GovernanceView { proposals: mark_all(g, ids).proposals, ..g }),
        mark_all(g, ids).proposals.dom() == g.proposals.dom(),
        forall|k: u64| #[trigger] g.proposals.contains_key(k) ==> mark_all(g, ids).proposals[k] == (
            if ids.contains(k) { executed_view(g.proposals[k]) } else { g.proposals[k] }),
    decreases ids.len(),
{
    if ids.len() > 0 {
        let prefix = ids.drop_last();
        assert forall|j: int| 0 <= j < prefix.len() implies g.proposals.contains_key(#[trigger] prefix[j]) by {
            assert(prefix[j] == ids[j]);
        }
        lemma_mark_all(g, prefix);
        let last = ids.last();
        assert(g.proposals.contains_key(ids[ids.len() - 1]));
        let m = mark_all(g, ids);
        assert(m.proposals.dom() =~= g.proposals.dom());
        assert forall|k: u64| #[trigger] g.proposals.contains_key(k) implies m.proposals[k] == (
            if ids.contains(k) { executed_view(g.proposals[k]) } else { g.proposals[k] }) by {
            if k == last {
                assert(ids[ids.len() - 1] == k);
            } else {
                if ids.contains(k) {
                    let j = choose|j: int| 0 <= j < ids.len() && ids[j] == k;
                    assert(prefix[j] == k);
                }
                if prefix.contains(k) {
                    let j = choose|j: int| 0 <= j < prefix.len() && prefix[j] == k;
                    assert(ids[j] == k);
                }
            }
        }
    }
}

/// A batch that is not refused has no refused prefix, and each item passes
/// once the items before it were executed.
proof fn lemma_batch_prefix(g: GovernanceView, admin: Option<Seq<char>>, executor: Seq<char>, ids: Seq<u64>, now: u64, k: int)
    requires
        0 <= k < ids.len(),
        batch_error(g, admin, executor, ids, now) is None,
    ensures
        batch_error(g, admin, executor, ids.subrange(0, k), now) is None,
        execute_upgrade_error(mark_all(g, ids.subrange(0, k)), admin, executor, ids[k], now) is None,
    decreases ids.len() - k,
{
    if k + 1 < ids.len() {
        lemma_batch_prefix(g, admin, executor, ids, now, k + 1);
        let p = ids.subrange(0, k + 1);
        assert(p.drop_last() =~= ids.subrange(0, k));
    } else {
        assert(ids.drop_last() =~= ids.subrange(0, k));
    }
}

/// A batch whose prefix is refused is refused for the same reason.
proof fn lemma_batch_extend(g: GovernanceView, admin: Option<Seq<char>>, executor: Seq<char>, ids: Seq<u64>, now: u64, k: int)
    requires
        0 <= k <= ids.len(),
        batch_error(g, admin, executor, ids.subrange(0, k), now) is Some,
    ensures
        batch_error(g, admin, executor, ids, now) == batch_error(g, admin, executor, ids.subrange(0, k), now),
    decreases ids.len() - k,
{
    if k == ids.len() {
        assert(ids.subrange(0, k) =~= ids);
    } else {
        let p = ids.subrange(0, k + 1);
        assert(p.drop_last() =~= ids.subrange(0, k));
        lemma_batch_extend(g, admin, executor, ids, now, k + 1);
    }
}

/// Executes, in order, the upgrades of a batch of proposals. A refusal of
/// any item refuses the whole batch.
pub fn execute_upgrade_batch(
    gov: &mut Governance,
    ac: &AccessControl,
    executor: &Address,
    proposal_ids: &Vec<u64>,
    wasm_hashes: &Vec<WasmHash>,
    now: u64,
) -> (r: Result<(), AdminError>)
    ensures
        r == (if proposal_ids@.len() != wasm_hashes@.len() {
            Err(AdminError::BatchLengthMismatch)
        } else {
            outcome(batch_error(old(gov)@, ac.admin_view(), executor@, proposal_ids@, now))
        }),
        r is Err ==> final(gov)@ == old(gov)@,
        r is Ok ==> final(gov)@ == mark_all(old(gov)@, proposal_ids@),
{
    if proposal_ids.len() != wasm_hashes.len() {
        return Err(AdminError::BatchLengthMismatch);
    }
    let ghost g0 = gov@;
    let ghost admin = ac.admin_view();
    let ids = proposal_ids;
    let in_pool = in_admin_pool(gov, ac, executor);
    let mut i: usize = 0;
    while i < ids.len()
        invariant
            gov@ == g0,
            old(gov)@ == g0,
            proposal_ids@.len() == wasm_hashes@.len(),
            ids == proposal_ids,
            admin == ac.admin_view(),
            in_pool == pool_members(g0, admin).contains(executor@),
            i <= ids@.len(),
            batch_error(g0, admin, executor@, ids@.subrange(0, i as int), now) is None,
            forall|j: int| 0 <= j < i ==> g0.proposals.contains_key(#[trigger] ids@[j]),
        decreases ids@.len() - i,
    {
        let id = ids[i];
        let ghost prefix = ids@.subrange(0, i as int);
        let ghost next = ids@.subrange(0, i + 1);
        proof {
            assert(next.drop_last() =~= prefix);
            assert(next.last() == id);
            assert forall|j: int| 0 <= j < prefix.len() implies g0.proposals.contains_key(#[trigger] prefix[j]) by {
                assert(prefix[j] == ids@[j]);
            }
            lemma_mark_all(g0, prefix);
            if execute_upgrade_error(mark_all(g0, prefix), admin, executor@, id, now) is Some {
                lemma_batch_extend(g0, admin, executor@, ids@, now, i + 1);
            }
        }
        if !in_pool {
            return Err(AdminError::UnauthorizedRole);
        }
        let (executed, ready) = match gov.proposals.get(&id) {
            None => {
                return Err(AdminError::ProposalNotFound);
            },
            Some(p) => (p.executed, p.approvals.len() >= get_threshold(gov) as usize),
        };
        let mut seen = false;
        let mut j: usize = 0;
        while j < i
            invariant
                j <= i,
                i < ids@.len(),
                seen == ids@.subrange(0, j as int).contains(id),
            decreases i - j,
        {
            proof {
                assert(ids@.subrange(0, j + 1) =~= ids@.subrange(0, j as int).push(ids@[j as int]));
            }
            if ids[j] == id {
                seen = true;
            }
            proof {
                let s0 = ids@.subrange(0, j as int);
                let s1 = ids@.subrange(0, j + 1);
                if s1.contains(id) {
                    let k = choose|k: int| 0 <= k < s1.len() && s1[k] == id;
                    if k < j {
                        assert(s0[k] == id);
                    }
                }
                if s0.contains(id) {
                    let k = choose|k: int| 0 <= k < s0.len() && s0[k] == id;
                    assert(s1[k] == id);
                }
                if ids@[j as int] == id {
                    assert(s1[j as int] == id);
                }
            }
            j = j + 1;
        }
        proof {
            assert(prefix == ids@.subrange(0, j as int));
        }
        if executed || seen {
            return Err(AdminError::ProposalAlreadyExecuted);
        }
        if !ready {
            return Err(AdminError::QuorumNotMet);
        }
        require_timelock_expired(gov, id, now)?;
        i = i + 1;
        proof {
            assert(ids@.subrange(0, i as int) == next);
        }
    }
    proof {
        assert(ids@.subrange(0, ids@.len() as int) =~= ids@);
    }
    let mut i: usize = 0;
    while i < ids.len()
        invariant
            admin == ac.admin_view(),
            i <= ids@.len(),
            batch_error(g0, admin, executor@, ids@, now) is None,
            gov@ == mark_all(g0, ids@.subrange(0, i as int)),
        decreases ids@.len() - i,
    {
        proof {
            lemma_batch_prefix(g0, admin, executor@, ids@, now, i as int);
            assert(ids@.subrange(0, i + 1).drop_last() =~= ids@.subrange(0, i as int));
        }
        let r = execute_upgrade_inner(gov, ac, executor, ids[i], now);
        i = i + 1;
    }
    assert(ids@.subrange(0, ids@.len() as int) =~= ids@);
    Ok(())
}

/// A recorded unlock time is never moved: later approvals of the same
/// proposal leave it as it was.
pub proof fn lemma_timelock_never_reset(g: GovernanceView, id: u64, p: ProposalView, now: u64)
    requires
        g.timelocks.contains_key(id),
    ensures
        timelocks_after(g, id, p, now) == g.timelocks,
{
}

/// The approval that completes the quorum starts the timelock at the
/// moment of approval.
pub proof fn lemma_quorum_starts_timelock(g: GovernanceView, id: u64, p: ProposalView, now: u64)
    requires
        !g.timelocks.contains_key(id),
        proposal_ready(g, p),
    ensures
        timelocks_after(g, id, p, now)[id] == unlock_time(now),
        now <= unlock_time(now),
{
}

/// An executed proposal is never executed again.
pub proof fn lemma_execute_once(g: GovernanceView, admin: Option<Seq<char>>, executor: Seq<char>, id: u64, now: u64)
    requires
        g.proposals.contains_key(id),
        g.proposals[id].executed,
    ensures
        execute_upgrade_error(g, admin, executor, id, now) is Some,
        execute_upgrade_error(GovernanceView {
            proposals: g.proposals.insert(id, executed_view(g.proposals[id])),
            ..g
        }, admin, executor, id, now) is Some,
{
}

/// Execution is refused while the timelock runs.
pub proof fn lemma_timelock_blocks_execution(g: GovernanceView, admin: Option<Seq<char>>, executor: Seq<char>, id: u64, now: u64)
    requires
        g.timelocks.contains_key(id),
        now < g.timelocks[id],
    ensures
        execute_upgrade_error(g, admin, executor, id, now) is Some,
{
}

/// Approving is refused for a pool member that already approved, so a
/// proposal's approvals never list a member twice.
pub proof fn lemma_approvals_stay_unique(p: ProposalView, a: Seq<char>)
    requires
        p.approvals.no_duplicates(),
        !p.approvals.contains(a),
    ensures
        approved_by(p, a).approvals.no_duplicates(),
{
    let s = p.approvals.push(a);
    assert forall|i: int, j: int| 0 <= i < s.len() && 0 <= j < s.len() && i != j implies s[i] != s[j] by {
        if i == p.approvals.len() as int {
            assert(p.approvals[j] == s[j]);
        } else if j == p.approvals.len() as int {
            assert(p.approvals[i] == s[i]);
        }
    }
}

/// The voters of a list of votes, in casting order.
pub open spec fn voters(votes: Seq<(Seq<char>, u32)>) -> Seq<Seq<char>> {
    votes.map_values(|v: (Seq<char>, u32)| v.0)
}

/// An accepted vote comes from an address that had not voted, so an upgrade
/// proposal's votes never list a voter twice.
pub proof fn lemma_votes_stay_unique(g: GovernanceView, admin: Option<Seq<char>>, voter: Seq<char>, id: u64, now: u64)
    requires
        g.upgrade_proposals.contains_key(id),
        voters(g.upgrade_proposals[id].votes).no_duplicates(),
        approve_upgrade_error(g, admin, voter, id, now) is None,
    ensures
        voters(voted_view(g.upgrade_proposals[id], voter, now).votes).no_duplicates(),
{
    let old_votes = g.upgrade_proposals[id].votes;
    let s = voters(old_votes.push((voter, 1u32)));
    assert(s =~= voters(old_votes).push(voter));
    assert forall|i: int, j: int| 0 <= i < s.len() && 0 <= j < s.len() && i != j implies s[i] != s[j] by {
        if i == old_votes.len() as int {
            assert(old_votes[j].0 == s[j]);
        } else if j == old_votes.len() as int {
            assert(old_votes[i].0 == s[i]);
        } else {
            assert(voters(old_votes)[i] == s[i]);
            assert(voters(old_votes)[j] == s[j]);
        }
    }
}

/// `Executed`, `Cancelled` and `Expired` are terminal: such an upgrade
/// proposal can neither be voted on nor cancelled, by anyone, at any time.
pub proof fn lemma_terminal_upgrade_status_is_final(g: GovernanceView, admin: Option<Seq<char>>, who: Seq<char>, id: u64, now: u64)
    requires
        g.upgrade_proposals.contains_key(id),
        g.upgrade_proposals[id].status == ProposalStatus::Executed
            || g.upgrade_proposals[id].status == ProposalStatus::Cancelled
            || g.upgrade_proposals[id].status == ProposalStatus::Expired,
    ensures
        approve_upgrade_error(g, admin, who, id, now) is Some,
        cancel_error(g, who, id) is Some,
{
}

/// A cancelled governance proposal is gone: it can no longer be executed.
pub proof fn lemma_cancelled_proposal_cannot_execute(g: GovernanceView, admin: Option<Seq<char>>, executor: Seq<char>, id: u64, now: u64)
    ensures
        execute_upgrade_error(GovernanceView {
            proposals: g.proposals.remove(id),
            timelocks: g.timelocks.remove(id),
            ..g
        }, admin, executor, id, now) is Some,
{
}

/// The vote that brings an upgrade proposal to quorum starts its timelock at
/// the moment of the vote; a recorded unlock time is never moved by a vote.
pub proof fn lemma_upgrade_timelock_starts_once(p: UpgradeProposalView, voter: Seq<char>, now: u64)
    ensures
        p.timelock_expires_at is None && vote_total(p.votes.push((voter, 1u32))) >= p.quorum
            ==> voted_view(p, voter, now).timelock_expires_at == Some(unlock_time(now)),
        p.timelock_expires_at is Some ==> voted_view(p, voter, now).timelock_expires_at == p.timelock_expires_at,
{
}

/// The proposer may withdraw its upgrade proposal while it is still open —
/// `Pending` or `Approved`, timelock running or not — and no one else may
/// withdraw it at all.
pub proof fn lemma_proposer_can_cancel_open_proposal(g: GovernanceView, caller: Seq<char>, id: u64)
    requires
        g.upgrade_proposals.contains_key(id),
    ensures
        caller == g.upgrade_proposals[id].proposer
            && (g.upgrade_proposals[id].status == ProposalStatus::Pending
                || g.upgrade_proposals[id].status == ProposalStatus::Approved)
            ==> cancel_error(g, caller, id) is None,
        caller != g.upgrade_proposals[id].proposer ==> cancel_error(g, caller, id) == Some(AdminError::NotProposer),
        cancel_error(g, caller, id) is None <==> caller == g.upgrade_proposals[id].proposer
            && (g.upgrade_proposals[id].status == ProposalStatus::Pending
                || g.upgrade_proposals[id].status == ProposalStatus::Approved),
{
}

/// A pool member that has not voted may vote on a pending upgrade proposal
/// until its voting window closes; the vote adds one to the tally and the
/// proposal is approved exactly when the new tally reaches its quorum.
pub proof fn lemma_member_vote_counts(g: GovernanceView, admin: Option<Seq<char>>, voter: Seq<char>, id: u64, now: u64)
    requires
        g.upgrade_proposals.contains_key(id),
        pool_members(g, admin).contains(voter),
        g.upgrade_proposals[id].status == ProposalStatus::Pending,
    ensures
        approve_upgrade_error(g, admin, voter, id, now) is None
            <==> now < g.upgrade_proposals[id].expires_at && !has_voted(g.upgrade_proposals[id].votes, voter),
        ({
            let p = g.upgrade_proposals[id];
            let q = voted_view(p, voter, now);
            &&& vote_total(q.votes) == vote_total(p.votes) + 1
            &&& (q.status == ProposalStatus::Approved <==> vote_total(p.votes) + 1 >= p.quorum)
            &&& (q.status == ProposalStatus::Pending <==> vote_total(p.votes) + 1 < p.quorum)
        }),
{
    let p = g.upgrade_proposals[id];
    assert(p.votes.push((voter, 1u32)).drop_last() =~= p.votes);
}

/// Execution is allowed from the moment the timelock expires on: a pool
/// member may execute a quorate, unexecuted proposal at any time at or after
/// its recorded unlock time.
pub proof fn lemma_execute_after_timelock(g: GovernanceView, admin: Option<Seq<char>>, executor: Seq<char>, id: u64, now: u64)
    requires
        pool_members(g, admin).contains(executor),
        g.proposals.contains_key(id),
        !g.proposals[id].executed,
        g.proposals[id].approvals.len() >= threshold_of(g),
        g.timelocks.contains_key(id),
    ensures
        execute_upgrade_error(g, admin, executor, id, now) is None <==> now >= g.timelocks[id],
{
}

/// A pool member that has not approved an unexecuted proposal may approve
/// it, and the approval adds exactly that member to its approvals.
pub proof fn lemma_member_can_approve(g: GovernanceView, pool_admin: Option<Seq<char>>, admin: Seq<char>, id: u64)
    requires
        g.proposals.contains_key(id),
    ensures
        approve_proposal_error(g, pool_admin, admin, id) is None <==> pool_members(g, pool_admin).contains(admin)
            && !g.proposals[id].executed && !g.proposals[id].approvals.contains(admin),
        approved_by(g.proposals[id], admin).approvals.len() == g.proposals[id].approvals.len() + 1,
        approved_by(g.proposals[id], admin).approvals.contains(admin),
        forall|a: Seq<char>| g.proposals[id].approvals.contains(a) ==> #[trigger] approved_by(g.proposals[id], admin).approvals.contains(a),
{
    let p = g.proposals[id];
    let s = approved_by(p, admin).approvals;
    assert(s[p.approvals.len() as int] == admin);
    assert forall|a: Seq<char>| p.approvals.contains(a) implies #[trigger] approved_by(p, admin).approvals.contains(a) by {
        let k = choose|k: int| 0 <= k < p.approvals.len() && p.approvals[k] == a;
        assert(s[k] == a);
    }
}

/// Marking a proposal executed succeeds exactly for an existing, unexecuted
/// proposal with as many approvals as the threshold.
pub proof fn lemma_mark_executed_needs_threshold(g: GovernanceView, id: u64)
    ensures
        mark_executed_error(g, id) is None <==> g.proposals.contains_key(id) && !g.proposals[id].executed
            && g.proposals[id].approvals.len() >= threshold_of(g),
{
}

/// Emergency execution succeeds exactly when a pool member asks for an
/// existing, unexecuted proposal that every current pool member approved,
/// whatever the timelock says.
pub proof fn lemma_emergency_needs_everyone(g: GovernanceView, admin: Option<Seq<char>>, executor: Seq<char>, id: u64)
    ensures
        emergency_error(g, admin, executor, id) is None <==> pool_members(g, admin).contains(executor)
            && g.proposals.contains_key(id) && !g.proposals[id].executed
            && (forall|a: Seq<char>| pool_members(g, admin).contains(a) ==> g.proposals[id].approvals.contains(a)),
{
}

/// A pool member may propose any registered, non-zero 32-byte hash.
pub proof fn lemma_member_can_submit(g: GovernanceView, admin: Option<Seq<char>>, submitter: Seq<char>, h: Seq<u8>)
    ensures
        submit_error(g, admin, submitter, h) is None <==> pool_members(g, admin).contains(submitter)
            && h.len() == 32 && h != Seq::<u8>::new(32, |i: int| 0u8)
            && g.installed_hashes.contains_key(h) && g.installed_hashes[h],
{
}

} // verus!




