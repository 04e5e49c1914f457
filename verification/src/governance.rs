//! Multi-signature governance: a fixed set of signers approves proposed
//! actions; a proposal that gathers the threshold of approvals before it
//! expires can be executed once, and any signer can reject it while it is
//! pending.

use vstd::prelude::*;
use crate::address::{Address, addr_seq, contains_address, duplicate_addresses};
use crate::ledger_map::LedgerMap;

verus! {

/// An action that governance can approve.
pub enum Action {
    Mint(Address, i128),
    Pause,
    Unpause,
    TransferOwnership(Address),
    UpdateThreshold(u32),
}

/// An action as plain values.
pub enum ActionView {
    Mint(Seq<char>, i128),
    Pause,
    Unpause,
    TransferOwnership(Seq<char>),
    UpdateThreshold(u32),
}

impl View for Action {
    type V = ActionView;

    open spec fn view(&self) -> ActionView {
        match self {
            Action::Mint(a, amount) => ActionView::Mint(a@, *amount),
            Action::Pause => ActionView::Pause,
            Action::Unpause => ActionView::Unpause,
            Action::TransferOwnership(a) => ActionView::TransferOwnership(a@),
            Action::UpdateThreshold(t) => ActionView::UpdateThreshold(*t),
        }
    }
}

impl Action {
    /// A copy of the action.
    pub fn duplicate(&self) -> (r: Action)
        ensures
            r@ == self@,
    {
        match self {
            Action::Mint(a, amount) => Action::Mint(a.duplicate(), *amount),
            Action::Pause => Action::Pause,
            Action::Unpause => Action::Unpause,
            Action::TransferOwnership(a) => Action::TransferOwnership(a.duplicate()),
            Action::UpdateThreshold(t) => Action::UpdateThreshold(*t),
        }
    }
}

/// Where a proposal stands.
#[derive(Clone, Copy, PartialEq, Eq, Debug, Structural)]
pub enum ProposalStatus {
    Pending,
    Executed,
    Rejected,
}

/// A governance proposal.
pub struct Proposal {
    pub id: u64,
    pub action: Action,
    pub proposer: Address,
    pub approvals: Vec<Address>,
    pub expiry_ledger: u32,
    pub status: ProposalStatus,
}

/// A proposal as plain values.
pub struct ProposalView {
    pub id: u64,
    pub action: ActionView,
    pub proposer: Seq<char>,
    pub approvals: Seq<Seq<char>>,
    pub expiry_ledger: u32,
    pub status: ProposalStatus,
}

impl View for Proposal {
    type V = ProposalView;

    open spec fn view(&self) -> ProposalView {
        ProposalView {
            id: self.id,
            action: self.action@,
            proposer: self.proposer@,
            approvals: addr_seq(self.approvals@),
            expiry_ledger: self.expiry_ledger,
            status: self.status,
        }
    }
}

/// Why a governance operation was refused.
#[derive(Clone, Copy, PartialEq, Eq, Debug, Structural)]
pub enum GovernanceError {
    NoSigners,
    InvalidThreshold,
    InvalidExpiry,
    DuplicateSigner,
    NotInitialized,
    NotSigner,
    ProposalNotFound,
    NotPending,
    Expired,
    AlreadyApproved,
    ThresholdNotMet,
}

/// The message the contract aborts with for `e`.
pub open spec fn governance_message(e: GovernanceError) -> Seq<char> {
    match e {
        GovernanceError::NoSigners => "at least one signer required"@,
        GovernanceError::InvalidThreshold => "invalid threshold"@,
        GovernanceError::InvalidExpiry => "expiry ledgers must be positive"@,
        GovernanceError::DuplicateSigner => "duplicate signer"@,
        GovernanceError::NotInitialized => "governance not initialized"@,
        GovernanceError::NotSigner => "not a governance signer"@,
        GovernanceError::ProposalNotFound => "proposal not found"@,
        GovernanceError::NotPending => "proposal is not pending"@,
        GovernanceError::Expired => "proposal expired"@,
        GovernanceError::AlreadyApproved => "signer already approved proposal"@,
        GovernanceError::ThresholdNotMet => "approval threshold not met"@,
    }
}

impl GovernanceError {
    /// The message the contract aborts with for this error.
    pub fn message(self) -> (r: &'static str)
        ensures
            r@ == governance_message(self),
    {
        match self {
            GovernanceError::NoSigners => "at least one signer required",
            GovernanceError::InvalidThreshold => "invalid threshold",
            GovernanceError::InvalidExpiry => "expiry ledgers must be positive",
            GovernanceError::DuplicateSigner => "duplicate signer",
            GovernanceError::NotInitialized => "governance not initialized",
            GovernanceError::NotSigner => "not a governance signer",
            GovernanceError::ProposalNotFound => "proposal not found",
            GovernanceError::NotPending => "proposal is not pending",
            GovernanceError::Expired => "proposal expired",
            GovernanceError::AlreadyApproved => "signer already approved proposal",
            GovernanceError::ThresholdNotMet => "approval threshold not met",
        }
    }
}

/// The governance ledger.
pub struct MultiSigGovernance {
    /// The signers, once initialized.
    pub signers: Option<Vec<Address>>,
    /// Approvals needed to execute, once initialized.
    pub threshold: Option<u32>,
    /// How many ledgers a proposal stays open, once initialized.
    pub expiry_ledgers: Option<u32>,
    /// The id of the next proposal, once written.
    pub next_proposal_id: Option<u64>,
    /// Proposals by id.
    pub proposals: LedgerMap<u64, Proposal>,
}

/// The governance ledger as plain values.
pub struct GovernanceState {
    pub signers: Option<Seq<Seq<char>>>,
    pub threshold: Option<u32>,
    pub expiry_ledgers: Option<u32>,
    pub next_proposal_id: Option<u64>,
    pub proposals: Map<u64, ProposalView>,
}

impl View for MultiSigGovernance {
    type V = GovernanceState;

    open spec fn view(&self) -> GovernanceState {
        GovernanceState {
            signers: match self.signers { Some(s) => Some(addr_seq(s@)), None => None },
            threshold: self.threshold,
            expiry_ledgers: self.expiry_ledgers,
            next_proposal_id: self.next_proposal_id,
            proposals: self.proposals@.map_values(|p: Proposal| p@),
        }
    }
}

/// Why a configuration is refused, if it is.
pub open spec fn config_error(signers: Seq<Seq<char>>, threshold: u32, expiry_ledgers: u32) -> Option<GovernanceError> {
    if signers.len() == 0 {
        Some(GovernanceError::NoSigners)
    } else if threshold == 0 || threshold > signers.len() {
        Some(GovernanceError::InvalidThreshold)
    } else if expiry_ledgers == 0 {
        Some(GovernanceError::InvalidExpiry)
    } else if !signers.no_duplicates() {
        Some(GovernanceError::DuplicateSigner)
    } else {
        None
    }
}

impl GovernanceState {
    /// Why `who` may not act as a signer, if they may not.
    pub open spec fn signer_error(self, who: Seq<char>) -> Option<GovernanceError> {
        match self.signers {
            None => Some(GovernanceError::NotInitialized),
            Some(s) => if s.contains(who) { None } else { Some(GovernanceError::NotSigner) },
        }
    }

    /// Why proposal `id` is not open at ledger `sequence`, if it is not.
    pub open spec fn pending_error(self, id: u64, sequence: u32) -> Option<GovernanceError> {
        if !self.proposals.contains_key(id) {
            Some(GovernanceError::ProposalNotFound)
        } else if self.proposals[id].status != ProposalStatus::Pending {
            Some(GovernanceError::NotPending)
        } else if sequence > self.proposals[id].expiry_ledger {
            Some(GovernanceError::Expired)
        } else {
            None
        }
    }

    /// Why `signer`'s approval of proposal `id` at ledger `sequence` is
    /// refused, if it is.
    pub open spec fn approve_error(self, signer: Seq<char>, id: u64, sequence: u32) -> Option<GovernanceError> {
        first_error(self.signer_error(signer),
            first_error(self.pending_error(id, sequence),
                if self.proposals[id].approvals.contains(signer) {
                    Some(GovernanceError::AlreadyApproved)
                } else {
                    None
                }))
    }

    /// The id the next proposal gets.
    pub open spec fn next_id(self) -> u64 {
        match self.next_proposal_id {
            Some(i) => i,
            None => 0,
        }
    }

    /// Why executing proposal `id` at ledger `sequence` is refused, if it is.
    pub open spec fn execute_error(self, id: u64, sequence: u32) -> Option<GovernanceError> {
        let p = self.proposals[id];
        first_error(self.pending_error(id, sequence),
            if self.threshold is None {
                Some(GovernanceError::NotInitialized)
            } else if p.approvals.len() < self.threshold.unwrap() {
                Some(GovernanceError::ThresholdNotMet)
            } else {
                match p.action {
                    ActionView::UpdateThreshold(t) => match self.signers {
                        None => Some(GovernanceError::NotInitialized),
                        Some(s) => if t == 0 || t > s.len() { Some(GovernanceError::InvalidThreshold) } else { None },
                    },
                    _ => None,
                }
            })
    }

    /// The ledger after proposal `id` was executed: marked executed, and a
    /// threshold update applied.
    pub open spec fn executed(self, id: u64) -> GovernanceState {
        let p = self.proposals[id];
        let marked = self.with_proposal(id, ProposalView { status: ProposalStatus::Executed, ..p });
        match p.action {
            ActionView::UpdateThreshold(t) => GovernanceState { threshold: Some(t), ..marked },
            _ => marked,
        }
    }

    /// `self` with proposal `id` set to `p`.
    pub open spec fn with_proposal(self, id: u64, p: ProposalView) -> GovernanceState {
        GovernanceState { proposals: self.proposals.insert(id, p), ..self }
    }
}

/// The first error of a list of checks.
pub open spec fn first_error(a: Option<GovernanceError>, b: Option<GovernanceError>) -> Option<GovernanceError> {
    match a {
        Some(e) => Some(e),
        None => b,
    }
}

/// The outcome an optional error stands for.
pub open spec fn outcome_of(e: Option<GovernanceError>) -> Result<(), GovernanceError> {
    match e {
        Some(x) => Err(x),
        None => Ok(()),
    }
}

fn validate_config(signers: &Vec<Address>, threshold: u32, expiry_ledgers: u32) -> (r: Result<(), GovernanceError>)
    ensures
        r == outcome_of(if addr_seq(signers@).len() == 0 {
            Some(GovernanceError::NoSigners)
        } else if threshold == 0 || threshold > signers@.len() {
            Some(GovernanceError::InvalidThreshold)
        } else if expiry_ledgers == 0 {
            Some(GovernanceError::InvalidExpiry)
        } else {
            None
        }),
{
    if signers.len() == 0 {
        return Err(GovernanceError::NoSigners);
    }
    if threshold == 0 || threshold as usize > signers.len() {
        return Err(GovernanceError::InvalidThreshold);
    }
    if expiry_ledgers == 0 {
        return Err(GovernanceError::InvalidExpiry);
    }
    Ok(())
}

fn ensure_unique_signers(signers: &Vec<Address>) -> (r: Result<(), GovernanceError>)
    ensures
        r == (if addr_seq(signers@).no_duplicates() { Ok(()) } else { Err(GovernanceError::DuplicateSigner) }),
{
    let ghost s = addr_seq(signers@);
    let n = signers.len();
    let mut i: usize = 0;
    while i < n
        invariant
            n == signers@.len(),
            s == addr_seq(signers@),
            i <= n,
            forall|a: int, b: int| 0 <= a < i && a < b < n ==> #[trigger] s[a] != #[trigger] s[b],
        decreases n - i,
    {
        let mut j: usize = i + 1;
        while j < n
            invariant
                n == signers@.len(),
                s == addr_seq(signers@),
                i < n,
                i + 1 <= j <= n,
                forall|a: int, b: int| 0 <= a < i && a < b < n ==> #[trigger] s[a] != #[trigger] s[b],
                forall|b: int| i < b < j ==> s[i as int] != #[trigger] s[b],
            decreases n - j,
        {
            if signers[i].same(&signers[j]) {
                proof {
                    assert(s[i as int] == s[j as int]);
                }
                return Err(GovernanceError::DuplicateSigner);
            }
            j = j + 1;
        }
        i = i + 1;
    }
    proof {
        assert forall|a: int, b: int| 0 <= a < s.len() && 0 <= b < s.len() && a != b implies s[a] != s[b] by {
            if a < b {
                assert(s[a] != s[b]);
            } else {
                assert(s[b] != s[a]);
            }
        }
    }
    Ok(())
}

impl MultiSigGovernance {
    /// Governance that was never initialized.
    pub fn new() -> (r: MultiSigGovernance)
        ensures
            r@.signers is None,
            r@.threshold is None,
            r@.expiry_ledgers is None,
            r@.next_proposal_id is None,
            r@.proposals == Map::<u64, ProposalView>::empty(),
    {
        MultiSigGovernance {
            signers: None,
            threshold: None,
            expiry_ledgers: None,
            next_proposal_id: None,
            proposals: LedgerMap::new(),
        }
    }

    /// Sets the signers, threshold and proposal lifetime. There must be at
    /// least one signer, no signer twice, a threshold between one and the
    /// number of signers, and a positive lifetime. Proposal ids start at 0
    /// the first time.
    pub fn initialize(&mut self, signers: Vec<Address>, threshold: u32, expiry_ledgers: u32) -> (r: Result<(), GovernanceError>)
        ensures
            r == outcome_of(config_error(addr_seq(signers@), threshold, expiry_ledgers)),
            r is Err ==> final(self)@ == old(self)@,
            r is Ok ==> final(self)@ == (GovernanceState {
                signers: Some(addr_seq(signers@)),
                threshold: Some(threshold),
                expiry_ledgers: Some(expiry_ledgers),
                next_proposal_id: Some(old(self)@.next_id()),
                ..old(self)@
            }),
    {
        validate_config(&signers, threshold, expiry_ledgers)?;
        ensure_unique_signers(&signers)?;
        self.signers = Some(signers);
        self.threshold = Some(threshold);
        self.expiry_ledgers = Some(expiry_ledgers);
        if self.next_proposal_id.is_none() {
            self.next_proposal_id = Some(0);
        }
        Ok(())
    }

    /// Whether governance was initialized.
    pub fn is_initialized(&self) -> (r: bool)
        ensures
            r == self@.signers is Some,
    {
        self.signers.is_some()
    }

    /// The signers.
    pub fn signers(&self) -> (r: Result<&Vec<Address>, GovernanceError>)
        ensures
            match self@.signers {
                Some(s) => r matches Ok(v) && addr_seq(v@) == s,
                None => r is Err && r->Err_0 == GovernanceError::NotInitialized,
            },
    {
        match &self.signers {
            Some(s) => Ok(s),
            None => Err(GovernanceError::NotInitialized),
        }
    }

    /// The approval threshold.
    pub fn threshold(&self) -> (r: Result<u32, GovernanceError>)
        ensures
            r == (match self@.threshold {
                Some(t) => Ok(t),
                None => Err(GovernanceError::NotInitialized),
            }),
    {
        match self.threshold {
            Some(t) => Ok(t),
            None => Err(GovernanceError::NotInitialized),
        }
    }

    fn require_signer(&self, signer: &Address) -> (r: Result<(), GovernanceError>)
        ensures
            r == outcome_of(self@.signer_error(signer@)),
    {
        let signers = self.signers()?;
        if !contains_address(signers, signer) {
            return Err(GovernanceError::NotSigner);
        }
        Ok(())
    }

    fn ensure_pending(proposal: &Proposal, sequence: u32) -> (r: Result<(), GovernanceError>)
        ensures
            r == (if proposal.status != ProposalStatus::Pending {
                Err(GovernanceError::NotPending)
            } else if sequence > proposal.expiry_ledger {
                Err(GovernanceError::Expired)
            } else {
                Ok(())
            }),
    {
        if proposal.status != ProposalStatus::Pending {
            return Err(GovernanceError::NotPending);
        }
        if sequence > proposal.expiry_ledger {
            return Err(GovernanceError::Expired);
        }
        Ok(())
    }

    /// Proposal `proposal_id`.
    pub fn proposal(&self, proposal_id: u64) -> (r: Result<&Proposal, GovernanceError>)
        ensures
            self@.proposals.contains_key(proposal_id) ==> (r matches Ok(p) && p@ == self@.proposals[proposal_id]),
            !self@.proposals.contains_key(proposal_id) ==> r is Err && r->Err_0 == GovernanceError::ProposalNotFound,
    {
        match self.proposals.get(&proposal_id) {
            Some(p) => Ok(p),
            None => Err(GovernanceError::ProposalNotFound),
        }
    }

    fn next_id(&mut self) -> (r: u64)
        requires
            old(self)@.next_id() < u64::MAX,
        ensures
            r == old(self)@.next_id(),
            final(self)@ == (GovernanceState { next_proposal_id: Some((r + 1) as u64), ..old(self)@ }),
    {
        let id = match self.next_proposal_id {
            Some(i) => i,
            None => 0,
        };
        self.next_proposal_id = Some(id + 1);
        id
    }

    fn store_proposal(&mut self, id: u64, proposal: Proposal)
        ensures
            final(self)@ == old(self)@.with_proposal(id, proposal@),
    {
        let ghost before = self.proposals@;
        let ghost pv = proposal@;
        self.proposals.set(id, proposal);
        proof {
            assert(self.proposals@.map_values(|p: Proposal| p@) =~= before.map_values(|p: Proposal| p@).insert(id, pv));
        }
    }

    /// Proposes `action` on behalf of signer `proposer` at ledger
    /// `sequence`; the proposer's approval counts. Returns the new id.
    pub fn propose(&mut self, proposer: &Address, action: Action, sequence: u32) -> (r: Result<u64, GovernanceError>)
        requires
            old(self)@.signer_error(proposer@) is None ==> old(self)@.next_id() < u64::MAX,
            old(self)@.signer_error(proposer@) is None && old(self)@.expiry_ledgers is Some
                ==> sequence + old(self)@.expiry_ledgers.unwrap() <= u32::MAX,
        ensures
            ({
                let id = old(self)@.next_id();
                match first_error(old(self)@.signer_error(proposer@),
                    if old(self)@.expiry_ledgers is None { Some(GovernanceError::NotInitialized) } else { None }) {
                    Some(e) => r == Err::<u64, GovernanceError>(e) && final(self)@ == old(self)@,
                    None => r == Ok::<u64, GovernanceError>(id) && final(self)@ == (GovernanceState {
                        next_proposal_id: Some((id + 1) as u64),
                        ..old(self)@
                    }).with_proposal(id, ProposalView {
                        id,
                        action: action@,
                        proposer: proposer@,
                        approvals: seq![proposer@],
                        expiry_ledger: (sequence + old(self)@.expiry_ledgers.unwrap()) as u32,
                        status: ProposalStatus::Pending,
                    }),
                }
            }),
    {
        self.require_signer(proposer)?;
        let expiry_ledgers = match self.expiry_ledgers {
            Some(e) => e,
            None => {
                return Err(GovernanceError::NotInitialized);
            },
        };
        let id = self.next_id();
        let mut approvals: Vec<Address> = Vec::new();
        approvals.push(proposer.duplicate());
        proof {
            assert(addr_seq(approvals@) =~= seq![proposer@]);
        }
        let proposal = Proposal {
            id,
            action,
            proposer: proposer.duplicate(),
            approvals,
            expiry_ledger: sequence + expiry_ledgers,
            status: ProposalStatus::Pending,
        };
        self.store_proposal(id, proposal);
        Ok(id)
    }

    /// Approves proposal `proposal_id` as `signer` at ledger `sequence`.
    pub fn approve(&mut self, signer: &Address, proposal_id: u64, sequence: u32) -> (r: Result<(), GovernanceError>)
        ensures
            ({
                let e = old(self)@.approve_error(signer@, proposal_id, sequence);
                let p = old(self)@.proposals[proposal_id];
                &&& r == outcome_of(e)
                &&& r is Err ==> final(self)@ == old(self)@
                &&& r is Ok ==> final(self)@ == old(self)@.with_proposal(proposal_id,
                    ProposalView { approvals: p.approvals.push(signer@), ..p })
            }),
    {
        self.require_signer(signer)?;
        let current = self.proposal(proposal_id)?;
        Self::ensure_pending(current, sequence)?;
        if contains_address(&current.approvals, signer) {
            return Err(GovernanceError::AlreadyApproved);
        }
        let ghost before = self.proposals@;
        let mut proposal = self.proposals.take(&proposal_id).unwrap();
        let ghost pv = proposal@;
        proposal.approvals.push(signer.duplicate());
        proof {
            assert(addr_seq(proposal.approvals@) =~= pv.approvals.push(signer@));
            assert(self@.proposals =~= before.map_values(|p: Proposal| p@).remove(proposal_id));
        }
        self.store_proposal(proposal_id, proposal);
        proof {
            assert(self@.proposals =~= before.map_values(|p: Proposal| p@).insert(proposal_id,
                ProposalView { approvals: pv.approvals.push(signer@), ..pv }));
        }
        Ok(())
    }

    /// Sets the approval threshold: between one and the number of signers.
    pub fn set_threshold(&mut self, new_threshold: u32) -> (r: Result<(), GovernanceError>)
        ensures
            r == (match old(self)@.signers {
                None => Err(GovernanceError::NotInitialized),
                Some(s) => if new_threshold == 0 || new_threshold > s.len() {
                    Err(GovernanceError::InvalidThreshold)
                } else if old(self)@.threshold is None {
                    Err(GovernanceError::NotInitialized)
                } else {
                    Ok(())
                },
            }),
            r is Err ==> final(self)@ == old(self)@,
            r is Ok ==> final(self)@ == (GovernanceState { threshold: Some(new_threshold), ..old(self)@ }),
    {
        let signer_count = self.signers()?.len();
        if new_threshold == 0 || new_threshold as usize > signer_count {
            return Err(GovernanceError::InvalidThreshold);
        }
        self.threshold()?;
        self.threshold = Some(new_threshold);
        Ok(())
    }

    /// Rejects proposal `proposal_id` as `signer` at ledger `sequence`.
    pub fn reject(&mut self, signer: &Address, proposal_id: u64, sequence: u32) -> (r: Result<(), GovernanceError>)
        ensures
            ({
                let e = first_error(old(self)@.signer_error(signer@), old(self)@.pending_error(proposal_id, sequence));
                let p = old(self)@.proposals[proposal_id];
                &&& r == outcome_of(e)
                &&& r is Err ==> final(self)@ == old(self)@
                &&& r is Ok ==> final(self)@ == old(self)@.with_proposal(proposal_id,
                    ProposalView { status: ProposalStatus::Rejected, ..p })
            }),
    {
        self.require_signer(signer)?;
        let current = self.proposal(proposal_id)?;
        Self::ensure_pending(current, sequence)?;
        let ghost before = self.proposals@;
        let mut proposal = self.proposals.take(&proposal_id).unwrap();
        let ghost pv = proposal@;
        proposal.status = ProposalStatus::Rejected;
        self.store_proposal(proposal_id, proposal);
        proof {
            assert(self@.proposals =~= before.map_values(|p: Proposal| p@).insert(proposal_id,
                ProposalView { status: ProposalStatus::Rejected, ..pv }));
        }
        Ok(())
    }
}

impl MultiSigGovernance {
    /// Executes proposal `proposal_id` at ledger `sequence` once it has the
    /// threshold of approvals, applying a threshold update itself and
    /// returning the action for the caller to carry out.
    pub fn execute(&mut self, proposal_id: u64, sequence: u32) -> (r: Result<Action, GovernanceError>)
        ensures
            match old(self)@.execute_error(proposal_id, sequence) {
                Some(e) => r is Err && r->Err_0 == e && final(self)@ == old(self)@,
                None => (r matches Ok(a) && a@ == old(self)@.proposals[proposal_id].action)
                    && final(self)@ == old(self)@.executed(proposal_id),
            },
    {
        let current = self.proposal(proposal_id)?;
        Self::ensure_pending(current, sequence)?;
        let threshold = self.threshold()?;
        if (current.approvals.len() as u64) < (threshold as u64) {
            return Err(GovernanceError::ThresholdNotMet);
        }
        let action = current.action.duplicate();
        match &action {
            Action::UpdateThreshold(t) => {
                let signer_count = self.signers()?.len();
                if *t == 0 || *t as usize > signer_count {
                    return Err(GovernanceError::InvalidThreshold);
                }
            },
            _ => {},
        }
        let ghost before = self.proposals@;
        let mut proposal = self.proposals.take(&proposal_id).unwrap();
        let ghost pv = proposal@;
        proposal.status = ProposalStatus::Executed;
        self.store_proposal(proposal_id, proposal);
        proof {
            assert(self@.proposals =~= before.map_values(|p: Proposal| p@).insert(proposal_id,
                ProposalView { status: ProposalStatus::Executed, ..pv }));
        }
        match &action {
            Action::UpdateThreshold(t) => {
                self.threshold = Some(*t);
            },
            _ => {},
        }
        Ok(action)
    }
}

/// A proposal that is no longer pending — executed or rejected — cannot be
/// approved, rejected or executed again.
pub proof fn lemma_settled_proposal_is_final(g: GovernanceState, id: u64, sequence: u32)
    requires
        g.proposals.contains_key(id),
        g.proposals[id].status != ProposalStatus::Pending,
    ensures
        g.pending_error(id, sequence) == Some(GovernanceError::NotPending),
        g.execute_error(id, sequence) == Some(GovernanceError::NotPending),
{
}

/// Executing a proposal settles it: executing it again is refused.
pub proof fn lemma_execute_once(g: GovernanceState, id: u64, sequence: u32, later: u32)
    requires
        g.execute_error(id, sequence) is None,
    ensures
        g.executed(id).proposals[id].status == ProposalStatus::Executed,
        g.executed(id).execute_error(id, later) == Some(GovernanceError::NotPending),
{
}

/// A proposal expires: after its expiry ledger it can no longer be approved
/// or executed.
pub proof fn lemma_expired_proposal_is_closed(g: GovernanceState, id: u64, sequence: u32)
    requires
        g.proposals.contains_key(id),
        g.proposals[id].status == ProposalStatus::Pending,
        sequence > g.proposals[id].expiry_ledger,
    ensures
        g.pending_error(id, sequence) == Some(GovernanceError::Expired),
        g.execute_error(id, sequence) == Some(GovernanceError::Expired),
{
}

/// Approvals never list a signer twice: a proposal starts with its
/// proposer's approval, and an approval by a signer already listed is
/// refused.
pub proof fn lemma_approvals_unique(approvals: Seq<Seq<char>>, signer: Seq<char>)
    requires
        approvals.no_duplicates(),
        !approvals.contains(signer),
    ensures
        approvals.push(signer).no_duplicates(),
        seq![signer].no_duplicates(),
{
    let s = approvals.push(signer);
    assert forall|i: int, j: int| 0 <= i < s.len() && 0 <= j < s.len() && i != j implies s[i] != s[j] by {
        if i == approvals.len() as int {
            assert(approvals[j] == s[j]);
        } else if j == approvals.len() as int {
            assert(approvals[i] == s[i]);
        }
    }
}

/// Executing a proposal needs the threshold of approvals.
pub proof fn lemma_execute_needs_threshold(g: GovernanceState, id: u64, sequence: u32)
    requires
        g.execute_error(id, sequence) is None,
    ensures
        g.threshold is Some,
        g.proposals[id].approvals.len() >= g.threshold.unwrap(),
{
}

/// A signer of an initialized governance may approve a pending proposal it
/// has not approved yet, up to and including its expiry ledger; nobody else
/// may approve, and neither a second approval nor a late one is accepted.
pub proof fn lemma_signer_can_approve(g: GovernanceState, signer: Seq<char>, id: u64, sequence: u32)
    ensures
        g.approve_error(signer, id, sequence) is None <==> (g.signers matches Some(s) && s.contains(signer))
            && g.proposals.contains_key(id)
            && g.proposals[id].status == ProposalStatus::Pending
            && sequence <= g.proposals[id].expiry_ledger
            && !g.proposals[id].approvals.contains(signer),
{
}

/// A pending proposal whose expiry ledger has not passed executes exactly
/// when it has at least the threshold of approvals (and, for a threshold
/// update, the new threshold is between one and the number of signers).
pub proof fn lemma_execute_at_threshold(g: GovernanceState, id: u64, sequence: u32)
    requires
        g.proposals.contains_key(id),
        g.proposals[id].status == ProposalStatus::Pending,
        sequence <= g.proposals[id].expiry_ledger,
        g.threshold is Some,
        !(g.proposals[id].action is UpdateThreshold),
    ensures
        g.execute_error(id, sequence) is None <==> g.proposals[id].approvals.len() >= g.threshold.unwrap(),
{
}

/// A configuration is accepted exactly when it has at least one signer, no
/// signer twice, a threshold between one and the number of signers, and a
/// positive proposal lifetime.
pub proof fn lemma_config_accepted(signers: Seq<Seq<char>>, threshold: u32, expiry_ledgers: u32)
    ensures
        config_error(signers, threshold, expiry_ledgers) is None <==> signers.len() > 0 && signers.no_duplicates()
            && 1 <= threshold <= signers.len() && expiry_ledgers > 0,
{
}

} // verus!

