//! Invoice splitting: an invoice pays a fixed total out to a list of
//! recipients in the contract's token. A release pays every recipient that
//! has retries left; a failed payout is recorded and can be retried on its
//! own, up to three attempts in all.
//!
//! Paying a recipient is a call into the token contract, which the ledger
//! cannot make itself. A release is therefore a run of steps: the caller
//! asks for the next payout, makes the transfer (deciding with
//! [`transfer_allowed`] whether to attempt it), reports the outcome, and
//! finally closes the run, which records the invoice's new status.

use vstd::prelude::*;
use crate::address::Address;
use crate::admin_multisig::{Governance, GovernanceView};
use crate::ledger_map::LedgerMap;
use crate::rbac::{AccessControl, AccessView, AdminError, Role, require_super_admin, set_admin,
    set_admin_post, set_admin_conflicts};
use crate::token::{BatchItem, all_positive, amount_total, lemma_amount_total_prefix};
use crate::address::zero_address_view;

verus! {

/// A payee of an invoice and the amount owed to it.
pub struct Recipient {
    pub to: Address,
    pub amount: i128,
}

/// Where an invoice stands.
#[derive(Clone, Copy, PartialEq, Eq, Debug, Structural)]
pub enum InvoiceStatus {
    Pending,
    PartiallyReleased,
    FullyReleased,
    Failed,
}

/// A payout that failed, with the number of attempts made so far.
pub struct FailedPayout {
    pub invoice_id: u64,
    pub recipient: Address,
    pub amount: i128,
    pub retry_count: u32,
}

/// An invoice: a total split among recipients.
pub struct Invoice {
    pub invoice_id: u64,
    pub total_amount: i128,
    pub released_amount: i128,
    pub status: InvoiceStatus,
    pub recipients: Vec<Recipient>,
    pub created_at: u32,
}

/// Errors of the split contract, each with a stable code
/// (see [`SplitError::code`]).
#[derive(Clone, Copy, PartialEq, Eq, Debug, Structural)]
pub enum SplitError {
    InvoiceNotFound,
    InvalidRecipient,
    InsufficientBalance,
    InvoiceAlreadyCompleted,
    FailedPayoutNotFound,
}

/// The numeric code of each split error.
pub open spec fn split_error_code(e: SplitError) -> u32 {
    match e {
        SplitError::InvoiceNotFound => 1,
        SplitError::InvalidRecipient => 2,
        SplitError::InsufficientBalance => 3,
        SplitError::InvoiceAlreadyCompleted => 4,
        SplitError::FailedPayoutNotFound => 5,
    }
}

impl SplitError {
    /// The stable numeric code of the error.
    pub fn code(self) -> (r: u32)
        ensures
            r == split_error_code(self),
    {
        match self {
            SplitError::InvoiceNotFound => 1,
            SplitError::InvalidRecipient => 2,
            SplitError::InsufficientBalance => 3,
            SplitError::InvoiceAlreadyCompleted => 4,
            SplitError::FailedPayoutNotFound => 5,
        }
    }
}

/// Why a split call was refused: a split error, or an access-control error
/// raised by a role check or an admin change the call makes.
#[derive(Clone, Copy, PartialEq, Eq, Debug, Structural)]
pub enum SplitCallError {
    Split(SplitError),
    Access(AdminError),
}

/// The (address, amount) items of a recipient list.
pub open spec fn split_items(recipients: Seq<Recipient>) -> Seq<BatchItem> {
    recipients.map_values(|r: Recipient| (r.to@, r.amount))
}

/// An invoice as plain values.
pub struct InvoiceView {
    pub invoice_id: u64,
    pub total_amount: i128,
    pub released_amount: i128,
    pub status: InvoiceStatus,
    pub recipients: Seq<BatchItem>,
    pub created_at: u32,
}

impl View for Invoice {
    type V = InvoiceView;

    open spec fn view(&self) -> InvoiceView {
        InvoiceView {
            invoice_id: self.invoice_id,
            total_amount: self.total_amount,
            released_amount: self.released_amount,
            status: self.status,
            recipients: split_items(self.recipients@),
            created_at: self.created_at,
        }
    }
}

/// A failed payout as plain values.
pub struct FailedPayoutView {
    pub invoice_id: u64,
    pub recipient: Seq<char>,
    pub amount: i128,
    pub retry_count: u32,
}

impl View for FailedPayout {
    type V = FailedPayoutView;

    open spec fn view(&self) -> FailedPayoutView {
        FailedPayoutView {
            invoice_id: self.invoice_id,
            recipient: self.recipient@,
            amount: self.amount,
            retry_count: self.retry_count,
        }
    }
}

/// The split contract's ledger.
pub struct SplitContract {
    /// Invoices by id.
    pub invoices: LedgerMap<u64, Invoice>,
    /// The token that invoices are paid in, once an invoice was created.
    pub token: Option<Address>,
    /// Failed payouts by (invoice id, recipient).
    pub failed_payouts: LedgerMap<(u64, Address), FailedPayout>,
    /// Admin and roles.
    pub access: AccessControl,
    /// Multi-signature upgrade governance.
    pub governance: Governance,
}

/// The split ledger as plain values.
pub struct SplitView {
    pub invoices: Map<u64, InvoiceView>,
    pub token: Option<Seq<char>>,
    pub failed_payouts: Map<(u64, Seq<char>), FailedPayoutView>,
    pub access: AccessView,
    pub governance: GovernanceView,
}

impl View for SplitContract {
    type V = SplitView;

    open spec fn view(&self) -> SplitView {
        SplitView {
            invoices: self.invoices@.map_values(|i: Invoice| i@),
            token: match self.token { Some(t) => Some(t@), None => None },
            failed_payouts: self.failed_payouts@.map_values(|f: FailedPayout| f@),
            access: self.access@,
            governance: self.governance@,
        }
    }
}

/// Whether an invoice's amounts are positive and add up to its total.
pub open spec fn invoice_well_formed(inv: InvoiceView) -> bool {
    all_positive(inv.recipients) && amount_total(inv.recipients) == inv.total_amount
}

/// The maximum number of payout attempts per recipient.
pub const MAX_PAYOUT_ATTEMPTS: u32 = 3;

impl SplitView {
    /// Whether the payout of invoice `id` to `who` failed and has no
    /// attempts left.
    pub open spec fn exhausted(self, id: u64, who: Seq<char>) -> bool {
        self.failed_payouts.contains_key((id, who)) && self.failed_payouts[(id, who)].retry_count >= MAX_PAYOUT_ATTEMPTS
    }

    /// The failed-payout record after one more failed attempt of invoice
    /// `id` to `who` for `amount`.
    pub open spec fn failure_recorded(self, id: u64, who: Seq<char>, amount: i128) -> FailedPayoutView {
        FailedPayoutView {
            invoice_id: id,
            recipient: who,
            amount,
            retry_count: if self.failed_payouts.contains_key((id, who)) {
                (self.failed_payouts[(id, who)].retry_count + 1) as u32
            } else {
                1
            },
        }
    }
}

/// Whether `create_invoice` accepts a total and recipient list.
pub open spec fn invoice_terms_valid(total_amount: i128, items: Seq<BatchItem>) -> bool {
    total_amount > 0 && all_positive(items) && amount_total(items) == total_amount
}

/// Whether a payout is attempted: the payer holds at least `amount`, and
/// `amount` is positive.
pub open spec fn transfer_allowed_spec(from_balance: i128, amount: i128) -> bool {
    !(from_balance < amount || amount <= 0)
}

/// Decides whether to attempt a payout of `amount` from a payer whose token
/// balance is `from_balance`.
pub fn transfer_allowed(from_balance: i128, amount: i128) -> (r: bool)
    ensures
        r == transfer_allowed_spec(from_balance, amount),
{
    !(from_balance < amount || amount <= 0)
}

/// The progress of a release: the invoice, the next recipient to consider,
/// the amount paid so far, the failures so far, and whether any payout
/// succeeded.
pub struct ReleaseRun {
    pub invoice_id: u64,
    pub next: usize,
    pub total_to_release: i128,
    pub failed_count: usize,
    pub invoice_updated: bool,
}

/// What a release asks the caller to do next.
pub enum ReleaseStep {
    /// Attempt a payout of `amount` to `to`, then report the outcome.
    Transfer { to: Address, amount: i128 },
    /// Every recipient was considered: close the run.
    Done,
}

/// The first recipient at or after `k` whose payout has attempts left.
pub open spec fn next_payable(v: SplitView, id: u64, items: Seq<BatchItem>, k: int) -> int
    decreases items.len() - k,
{
    if k >= items.len() {
        items.len() as int
    } else if !v.exhausted(id, items[k].0) {
        k
    } else {
        next_payable(v, id, items, k + 1)
    }
}

proof fn lemma_next_payable_bounds(v: SplitView, id: u64, items: Seq<BatchItem>, k: int)
    requires
        0 <= k <= items.len(),
    ensures
        k <= next_payable(v, id, items, k) <= items.len(),
        next_payable(v, id, items, k) < items.len() ==> !v.exhausted(id, items[next_payable(v, id, items, k)].0),
    decreases items.len() - k,
{
    if k < items.len() && v.exhausted(id, items[k].0) {
        lemma_next_payable_bounds(v, id, items, k + 1);
    }
}

/// The status a release gives its invoice.
pub open spec fn released_status(failed_count: int, recipients: int, released: i128, total: i128) -> InvoiceStatus {
    if failed_count == recipients {
        InvoiceStatus::Failed
    } else if released == total {
        InvoiceStatus::FullyReleased
    } else {
        InvoiceStatus::PartiallyReleased
    }
}

/// The run after the payout to its current recipient of `amount` went
/// through.
pub open spec fn paid(run: ReleaseRun, amount: i128) -> ReleaseRun {
    ReleaseRun {
        next: (run.next + 1) as usize,
        total_to_release: (run.total_to_release + amount) as i128,
        invoice_updated: true,
        ..run
    }
}

/// The run after the payout to its current recipient failed.
pub open spec fn unpaid(run: ReleaseRun) -> ReleaseRun {
    ReleaseRun {
        next: (run.next + 1) as usize,
        failed_count: (run.failed_count + 1) as usize,
        ..run
    }
}

/// A fresh run of invoice `id` after the payouts to its first `k`
/// recipients all went through.
pub open spec fn all_paid(id: u64, items: Seq<BatchItem>, k: nat) -> ReleaseRun
    decreases k,
{
    if k == 0 {
        ReleaseRun { invoice_id: id, next: 0, total_to_release: 0, failed_count: 0, invoice_updated: false }
    } else {
        paid(all_paid(id, items, (k - 1) as nat), items[k - 1].1)
    }
}

impl SplitView {
    /// Why a release of invoice `id` by `admin` cannot begin, if it cannot.
    pub open spec fn release_start_error(self, admin: Seq<char>, id: u64) -> Option<SplitCallError> {
        if !self.access.holds(Role::SuperAdmin, admin) {
            Some(SplitCallError::Access(AdminError::UnauthorizedRole))
        } else if self.token is None {
            Some(SplitCallError::Split(SplitError::InsufficientBalance))
        } else if !self.invoices.contains_key(id) {
            Some(SplitCallError::Split(SplitError::InvoiceNotFound))
        } else if self.invoices[id].status != InvoiceStatus::Pending {
            Some(SplitCallError::Split(SplitError::InvoiceAlreadyCompleted))
        } else {
            None
        }
    }

    /// Every stored invoice is well formed: positive amounts that add up to
    /// its total. `create_invoice` establishes it and every operation keeps it.
    pub open spec fn invoices_well_formed(self) -> bool {
        forall|id: u64| #[trigger] self.invoices.contains_key(id) ==> invoice_well_formed(self.invoices[id])
    }

    /// The invoice of a run.
    pub open spec fn run_invoice(self, run: ReleaseRun) -> InvoiceView {
        self.invoices[run.invoice_id]
    }

    /// Whether `run` is a release of a pending, well-formed invoice of this
    /// ledger, with totals that stay within the invoice's.
    pub open spec fn run_consistent(self, run: ReleaseRun) -> bool {
        let inv = self.invoices[run.invoice_id];
        &&& self.invoices.contains_key(run.invoice_id)
        &&& self.token is Some
        &&& inv.status == InvoiceStatus::Pending
        &&& invoice_well_formed(inv)
        &&& run.next <= inv.recipients.len()
        &&& 0 <= run.total_to_release <= amount_total(inv.recipients.take(run.next as int))
        &&& run.failed_count <= run.next
        &&& run.invoice_updated == (run.total_to_release > 0)
    }
}

impl SplitContract {
    /// An empty split ledger.
    pub fn new() -> (r: SplitContract)
        ensures
            r@.invoices == Map::<u64, InvoiceView>::empty(),
            r@.token is None,
            r@.failed_payouts == Map::<(u64, Seq<char>), FailedPayoutView>::empty(),
            r@.invoices_well_formed(),
            r@.access == (AccessView {
                admin: None,
                role_masks: Map::empty(),
                legacy_roles: Map::empty(),
                super_admins: Map::empty(),
            }),
            r@.governance == (GovernanceView {
                pool: None,
                threshold: None,
                proposals: Map::empty(),
                proposal_counter: None,
                timelocks: Map::empty(),
                upgrade_proposals: Map::empty(),
                upgrade_counter: None,
                installed_hashes: Map::empty(),
            }),
    {
        SplitContract {
            invoices: LedgerMap::new(),
            token: None,
            failed_payouts: LedgerMap::new(),
            access: AccessControl::new(),
            governance: Governance::new(),
        }
    }

    /// Creates invoice `invoice_id` paying `total_amount` out to
    /// `recipients` in the token at `token_address`. `admin_address` must
    /// hold `SuperAdmin` and becomes the admin; an invoice with the same id
    /// is replaced.
    pub fn create_invoice(
        &mut self,
        admin_address: &Address,
        invoice_id: u64,
        total_amount: i128,
        recipients: Vec<Recipient>,
        token_address: &Address,
        sequence: u32,
    ) -> (r: Result<(), SplitCallError>)
        ensures
            r == (if !old(self)@.access.holds(Role::SuperAdmin, admin_address@) {
                Err(SplitCallError::Access(AdminError::UnauthorizedRole))
            } else if !invoice_terms_valid(total_amount, split_items(recipients@)) {
                Err(SplitCallError::Split(SplitError::InvalidRecipient))
            } else if admin_address@ == zero_address_view() {
                Err(SplitCallError::Access(AdminError::InvalidAddress))
            } else if set_admin_conflicts(&old(self).access, admin_address@) {
                Err(SplitCallError::Access(AdminError::RoleAlreadyGranted))
            } else {
                Ok(())
            }),
            old(self)@.invoices_well_formed() ==> final(self)@.invoices_well_formed(),
            r is Err ==> final(self)@ == old(self)@,
            r is Ok ==> set_admin_post(&old(self).access, &final(self).access, admin_address@)
                && final(self)@ == (SplitView {
                    invoices: old(self)@.invoices.insert(invoice_id, InvoiceView {
                        invoice_id,
                        total_amount,
                        released_amount: 0,
                        status: InvoiceStatus::Pending,
                        recipients: split_items(recipients@),
                        created_at: sequence,
                    }),
                    token: Some(token_address@),
                    access: final(self)@.access,
                    ..old(self)@
                }),
    {
        let ghost items = split_items(recipients@);
        if require_super_admin(&self.access, admin_address).is_err() {
            return Err(SplitCallError::Access(AdminError::UnauthorizedRole));
        }
        if total_amount <= 0 {
            return Err(SplitCallError::Split(SplitError::InvalidRecipient));
        }
        let mut recipient_amounts: i128 = 0;
        let mut i: usize = 0;
        while i < recipients.len()
            invariant
                items == split_items(recipients@),
                i <= recipients@.len(),
                total_amount > 0,
                self@ == old(self)@,
                old(self)@.access.holds(Role::SuperAdmin, admin_address@),
                forall|j: int| 0 <= j < i ==> #[trigger] items[j].1 > 0,
                recipient_amounts == amount_total(items.take(i as int)),
            decreases recipients@.len() - i,
        {
            let amount = recipients[i].amount;
            proof {
                assert(items.take(i + 1).drop_last() =~= items.take(i as int));
                assert(items[i as int].1 == amount);
            }
            if amount <= 0 {
                assert(!all_positive(items));
                return Err(SplitCallError::Split(SplitError::InvalidRecipient));
            }
            recipient_amounts = match recipient_amounts.checked_add(amount) {
                Some(t) => t,
                None => {
                    proof {
                        if all_positive(items) {
                            lemma_amount_total_prefix(items, i + 1);
                        }
                    }
                    return Err(SplitCallError::Split(SplitError::InvalidRecipient));
                },
            };
            i = i + 1;
        }
        proof {
            assert(items.take(recipients@.len() as int) =~= items);
            assert(all_positive(items));
        }
        if recipient_amounts != total_amount {
            return Err(SplitCallError::Split(SplitError::InvalidRecipient));
        }
        match set_admin(&mut self.access, admin_address) {
            Ok(()) => {},
            Err(e) => {
                return Err(SplitCallError::Access(e));
            },
        }
        self.token = Some(token_address.duplicate());
        let invoice = Invoice {
            invoice_id,
            total_amount,
            released_amount: 0,
            status: InvoiceStatus::Pending,
            recipients,
            created_at: sequence,
        };
        let ghost iv = invoice@;
        let ghost before = self.invoices@;
        self.invoices.set(invoice_id, invoice);
        proof {
            assert(self.invoices@.map_values(|i: Invoice| i@) =~= before.map_values(|i: Invoice| i@).insert(invoice_id, iv));
        }
        Ok(())
    }

    /// Begins the release of invoice `invoice_id` by `admin_address`, who
    /// must hold `SuperAdmin`: the token must be set and the invoice pending.
    pub fn release_payment(&self, invoice_id: u64, admin_address: &Address) -> (r: Result<ReleaseRun, SplitCallError>)
        ensures
            r == (match self@.release_start_error(admin_address@, invoice_id) {
                Some(e) => Err::<ReleaseRun, SplitCallError>(e),
                None => Ok(ReleaseRun {
                    invoice_id,
                    next: 0,
                    total_to_release: 0,
                    failed_count: 0,
                    invoice_updated: false,
                }),
            }),
            self@.invoices_well_formed() ==> (r matches Ok(run) ==> self@.run_consistent(run)),
    {
        if require_super_admin(&self.access, admin_address).is_err() {
            return Err(SplitCallError::Access(AdminError::UnauthorizedRole));
        }
        if self.token.is_none() {
            return Err(SplitCallError::Split(SplitError::InsufficientBalance));
        }
        match self.invoices.get(&invoice_id) {
            None => Err(SplitCallError::Split(SplitError::InvoiceNotFound)),
            Some(invoice) => {
                if invoice.status != InvoiceStatus::Pending {
                    Err(SplitCallError::Split(SplitError::InvoiceAlreadyCompleted))
                } else {
                    Ok(ReleaseRun { invoice_id, next: 0, total_to_release: 0, failed_count: 0, invoice_updated: false })
                }
            },
        }
    }
}

/// With positive amounts, a longer prefix never sums to less.
proof fn lemma_prefix_total_monotone(items: Seq<BatchItem>, a: int, b: int)
    requires
        all_positive(items),
        0 <= a <= b <= items.len(),
    ensures
        amount_total(items.take(a)) <= amount_total(items.take(b)),
        amount_total(items.take(b)) <= amount_total(items),
{
    let t = items.take(b);
    assert forall|i: int| 0 <= i < t.len() implies #[trigger] t[i].1 > 0 by {
        assert(items[i].1 > 0);
    }
    assert(t.take(a) =~= items.take(a));
    lemma_amount_total_prefix(t, a);
    lemma_amount_total_prefix(items, b);
}

impl SplitContract {
    /// Advances `run` past recipients whose payout has no attempts left and
    /// returns the next payout to attempt, or `Done` when none is left.
    pub fn next_release_step(&self, run: &mut ReleaseRun) -> (r: ReleaseStep)
        requires
            self@.run_consistent(*old(run)),
        ensures
            ({
                let items = self@.run_invoice(*old(run)).recipients;
                let j = next_payable(self@, old(run).invoice_id, items, old(run).next as int);
                &&& *final(run) == (ReleaseRun { next: j as usize, ..*old(run) })
                &&& self@.run_consistent(*final(run))
                &&& j < items.len() ==> (r matches ReleaseStep::Transfer { to, amount }
                    && to@ == items[j].0 && amount == items[j].1)
                &&& j == items.len() ==> r is Done
            }),
    {
        let ghost items = self@.run_invoice(*run).recipients;
        let ghost start = run.next as int;
        let invoice = self.invoices.get(&run.invoice_id).unwrap();
        proof {
            lemma_next_payable_bounds(self@, run.invoice_id, items, start);
            assert(invoice@ == self@.invoices[run.invoice_id]);
        }
        while run.next < invoice.recipients.len()
            invariant
                items == invoice@.recipients,
                items == self@.run_invoice(*run).recipients,
                invoice@ == self@.invoices[run.invoice_id],
                self@.run_invoice(*run) == self@.run_invoice(*old(run)),
                run.invoice_id == old(run).invoice_id,
                start == old(run).next,
                start <= run.next <= items.len(),
                next_payable(self@, run.invoice_id, items, start) == next_payable(self@, run.invoice_id, items, run.next as int),
                *run == (ReleaseRun { next: run.next, ..*old(run) }),
                self@.run_consistent(*old(run)),
            decreases items.len() - run.next,
        {
            let recipient = &invoice.recipients[run.next];
            proof {
                assert(items[run.next as int] == (recipient.to@, recipient.amount));
            }
            let key = (run.invoice_id, recipient.to.duplicate());
            let exhausted = match self.failed_payouts.get(&key) {
                Some(fp) => {
                    proof {
                        assert(self@.failed_payouts[(run.invoice_id, recipient.to@)] == fp@);
                    }
                    fp.retry_count >= MAX_PAYOUT_ATTEMPTS
                },
                None => false,
            };
            if !exhausted {
                proof {
                    lemma_prefix_total_monotone(items, start, run.next as int);
                }
                return ReleaseStep::Transfer { to: recipient.to.duplicate(), amount: recipient.amount };
            }
            run.next = run.next + 1;
        }
        proof {
            lemma_prefix_total_monotone(items, start, run.next as int);
        }
        ReleaseStep::Done
    }

    /// Records the outcome of the payout to the run's current recipient: a
    /// success adds its amount to the released total; a failure records a
    /// failed payout with one more attempt.
    pub fn record_release_outcome(&mut self, run: &mut ReleaseRun, succeeded: bool)
        requires
            old(self)@.run_consistent(*old(run)),
            old(run).next < old(self)@.run_invoice(*old(run)).recipients.len(),
            !old(self)@.exhausted(old(run).invoice_id, old(self)@.run_invoice(*old(run)).recipients[old(run).next as int].0),
        ensures
            ({
                let id = old(run).invoice_id;
                let item = old(self)@.run_invoice(*old(run)).recipients[old(run).next as int];
                &&& succeeded ==> final(self)@ == old(self)@ && *final(run) == paid(*old(run), item.1)
                &&& !succeeded ==> final(self)@ == (SplitView {
                    failed_payouts: old(self)@.failed_payouts.insert((id, item.0),
                        old(self)@.failure_recorded(id, item.0, item.1)),
                    ..old(self)@
                }) && *final(run) == unpaid(*old(run))
                &&& final(self)@.run_consistent(*final(run))
                &&& old(self)@.invoices_well_formed() ==> final(self)@.invoices_well_formed()
            }),
    {
        let ghost items = self@.run_invoice(*run).recipients;
        let ghost k = run.next as int;
        let invoice = self.invoices.get(&run.invoice_id).unwrap();
        proof {
            assert(invoice@ == self@.invoices[run.invoice_id]);
        }
        let n = invoice.recipients.len();
        proof {
            assert(items.len() == n);
        }
        let recipient = &invoice.recipients[run.next];
        proof {
            assert(items[k] == (recipient.to@, recipient.amount));
            assert(items.take(k + 1).drop_last() =~= items.take(k));
            lemma_prefix_total_monotone(items, k + 1, k + 1);
        }
        if succeeded {
            run.total_to_release = run.total_to_release + recipient.amount;
            run.invoice_updated = true;
            run.next = run.next + 1;
        } else {
            let key = (run.invoice_id, recipient.to.duplicate());
            let retry_count: u32 = match self.failed_payouts.get(&key) {
                Some(fp) => {
                    proof {
                        assert(self@.failed_payouts[(run.invoice_id, recipient.to@)] == fp@);
                    }
                    fp.retry_count + 1
                },
                None => 1,
            };
            let failed = FailedPayout {
                invoice_id: run.invoice_id,
                recipient: recipient.to.duplicate(),
                amount: recipient.amount,
                retry_count,
            };
            let ghost fv = failed@;
            let ghost before = self.failed_payouts@;
            let ghost pre = self@;
            self.failed_payouts.set(key, failed);
            proof {
                assert(self.failed_payouts@.map_values(|f: FailedPayout| f@)
                    =~= before.map_values(|f: FailedPayout| f@).insert((old(run).invoice_id, items[k].0), fv));
                assert(self@.invoices == pre.invoices);
            }
            run.failed_count = run.failed_count + 1;
            run.next = run.next + 1;
        }
    }

    /// Closes a release: once any payout succeeded, the invoice records the
    /// released total and its new status.
    pub fn finish_release(&mut self, run: &ReleaseRun)
        requires
            old(self)@.run_consistent(*run),
        ensures
            ({
                let inv = old(self)@.run_invoice(*run);
                &&& old(self)@.invoices_well_formed() ==> final(self)@.invoices_well_formed()
                &&& !run.invoice_updated ==> final(self)@ == old(self)@
                &&& run.invoice_updated ==> final(self)@ == (SplitView {
                    invoices: old(self)@.invoices.insert(run.invoice_id, InvoiceView {
                        released_amount: run.total_to_release,
                        status: released_status(run.failed_count as int, inv.recipients.len() as int,
                            run.total_to_release, inv.total_amount),
                        ..inv
                    }),
                    ..old(self)@
                })
            }),
    {
        if !run.invoice_updated {
            return;
        }
        let ghost before = self.invoices@;
        let ghost pre = self@;
        let mut invoice = self.invoices.take(&run.invoice_id).unwrap();
        invoice.released_amount = run.total_to_release;
        if run.failed_count == invoice.recipients.len() {
            invoice.status = InvoiceStatus::Failed;
        } else if run.total_to_release == invoice.total_amount {
            invoice.status = InvoiceStatus::FullyReleased;
        } else {
            invoice.status = InvoiceStatus::PartiallyReleased;
        }
        let ghost iv = invoice@;
        self.invoices.set(run.invoice_id, invoice);
        proof {
            assert(self.invoices@.map_values(|i: Invoice| i@)
                =~= before.map_values(|i: Invoice| i@).insert(run.invoice_id, iv));
        }
    }

    /// Begins the retry of the failed payout of invoice `invoice_id` to
    /// `recipient`, by `admin_address`, who must hold `SuperAdmin`. Returns
    /// the amount to pay.
    pub fn retry_failed_payout(&self, invoice_id: u64, recipient: &Address, admin_address: &Address) -> (r: Result<i128, SplitCallError>)
        ensures
            r == (if !self@.access.holds(Role::SuperAdmin, admin_address@) {
                Err(SplitCallError::Access(AdminError::UnauthorizedRole))
            } else if !self@.invoices.contains_key(invoice_id) {
                Err(SplitCallError::Split(SplitError::InvoiceNotFound))
            } else if !self@.failed_payouts.contains_key((invoice_id, recipient@)) {
                Err(SplitCallError::Split(SplitError::FailedPayoutNotFound))
            } else if self@.failed_payouts[(invoice_id, recipient@)].retry_count >= MAX_PAYOUT_ATTEMPTS {
                Err(SplitCallError::Split(SplitError::InvoiceAlreadyCompleted))
            } else if self@.token is None {
                Err(SplitCallError::Split(SplitError::InsufficientBalance))
            } else {
                Ok(self@.failed_payouts[(invoice_id, recipient@)].amount)
            }),
    {
        if require_super_admin(&self.access, admin_address).is_err() {
            return Err(SplitCallError::Access(AdminError::UnauthorizedRole));
        }
        if !self.invoices.contains_key(&invoice_id) {
            return Err(SplitCallError::Split(SplitError::InvoiceNotFound));
        }
        let key = (invoice_id, recipient.duplicate());
        let failed = match self.failed_payouts.get(&key) {
            Some(fp) => fp,
            None => {
                return Err(SplitCallError::Split(SplitError::FailedPayoutNotFound));
            },
        };
        proof {
            assert(self@.failed_payouts[(invoice_id, recipient@)] == failed@);
        }
        if failed.retry_count >= MAX_PAYOUT_ATTEMPTS {
            return Err(SplitCallError::Split(SplitError::InvoiceAlreadyCompleted));
        }
        if self.token.is_none() {
            return Err(SplitCallError::Split(SplitError::InsufficientBalance));
        }
        Ok(failed.amount)
    }

    /// Settles a retry: a successful payout clears the failed record; a
    /// failed one refuses the call and leaves the ledger as it was.
    pub fn finish_retry(&mut self, invoice_id: u64, recipient: &Address, succeeded: bool) -> (r: Result<(), SplitError>)
        ensures
            succeeded ==> r is Ok && final(self)@ == (SplitView {
                failed_payouts: old(self)@.failed_payouts.remove((invoice_id, recipient@)),
                ..old(self)@
            }),
            !succeeded ==> r == Err::<(), SplitError>(SplitError::InsufficientBalance) && final(self)@ == old(self)@,
            old(self)@.invoices_well_formed() ==> final(self)@.invoices_well_formed(),
    {
        if !succeeded {
            return Err(SplitError::InsufficientBalance);
        }
        let ghost before = self.failed_payouts@;
        self.failed_payouts.remove(&(invoice_id, recipient.duplicate()));
        proof {
            assert(self.failed_payouts@.map_values(|f: FailedPayout| f@)
                =~= before.map_values(|f: FailedPayout| f@).remove((invoice_id, recipient@)));
        }
        Ok(())
    }

    /// Invoice `invoice_id`.
    pub fn get_invoice(&self, invoice_id: u64) -> (r: Result<&Invoice, SplitError>)
        ensures
            self@.invoices.contains_key(invoice_id) ==> (r matches Ok(inv) && inv@ == self@.invoices[invoice_id]),
            !self@.invoices.contains_key(invoice_id) ==> r is Err && r->Err_0 == SplitError::InvoiceNotFound,
    {
        match self.invoices.get(&invoice_id) {
            Some(inv) => Ok(inv),
            None => Err(SplitError::InvoiceNotFound),
        }
    }

    /// The failed payout of invoice `invoice_id` to `recipient`.
    pub fn get_failed_payout(&self, invoice_id: u64, recipient: &Address) -> (r: Result<&FailedPayout, SplitError>)
        ensures
            self@.failed_payouts.contains_key((invoice_id, recipient@))
                ==> (r matches Ok(fp) && fp@ == self@.failed_payouts[(invoice_id, recipient@)]),
            !self@.failed_payouts.contains_key((invoice_id, recipient@))
                ==> r is Err && r->Err_0 == SplitError::FailedPayoutNotFound,
    {
        match self.failed_payouts.get(&(invoice_id, recipient.duplicate())) {
            Some(fp) => Ok(fp),
            None => Err(SplitError::FailedPayoutNotFound),
        }
    }

    /// Authorizes a WASM upgrade by `upgrader`, who must hold `SuperAdmin`;
    /// installing the WASM is left to the caller.
    pub fn upgrade(&self, upgrader: &Address) -> (r: Result<(), AdminError>)
        ensures
            r == (if self@.access.holds(Role::SuperAdmin, upgrader@) { Ok(()) } else { Err(AdminError::UnauthorizedRole) }),
    {
        require_super_admin(&self.access, upgrader)
    }
}

/// A run never releases more than the invoice's total.
pub proof fn lemma_release_within_total(v: SplitView, run: ReleaseRun)
    requires
        v.run_consistent(run),
    ensures
        run.total_to_release <= v.run_invoice(run).total_amount,
{
    let items = v.run_invoice(run).recipients;
    lemma_prefix_total_monotone(items, run.next as int, run.next as int);
}

/// While every payout goes through, the run has released exactly the
/// amounts of the recipients it passed.
pub proof fn lemma_all_paid_total(id: u64, items: Seq<BatchItem>, k: nat)
    requires
        all_positive(items),
        amount_total(items) <= i128::MAX,
        k <= items.len(),
        items.len() <= usize::MAX,
    ensures
        all_paid(id, items, k).total_to_release == amount_total(items.take(k as int)),
        all_paid(id, items, k).next == k,
        all_paid(id, items, k).failed_count == 0,
        all_paid(id, items, k).invoice_updated == (k > 0),
        all_paid(id, items, k).invoice_id == id,
    decreases k,
{
    if k > 0 {
        lemma_all_paid_total(id, items, (k - 1) as nat);
        assert(items.take(k as int).drop_last() =~= items.take(k - 1));
        lemma_prefix_total_monotone(items, k as int, k as int);
    }
}

/// When every payout of a non-empty, well-formed invoice goes through, the
/// release pays out its whole total and marks it fully released.
pub proof fn lemma_all_paid_fully_released(inv: InvoiceView, id: u64)
    requires
        invoice_well_formed(inv),
        inv.recipients.len() > 0,
        inv.recipients.len() <= usize::MAX,
    ensures
        ({
            let n = inv.recipients.len();
            let run = all_paid(id, inv.recipients, n);
            &&& run.total_to_release == inv.total_amount
            &&& run.invoice_updated
            &&& released_status(run.failed_count as int, n as int, run.total_to_release, inv.total_amount)
                == InvoiceStatus::FullyReleased
        }),
{
    let n = inv.recipients.len();
    lemma_all_paid_total(id, inv.recipients, n);
    assert(inv.recipients.take(n as int) =~= inv.recipients);
}

/// An invoice's terms are accepted exactly when the total is positive,
/// every recipient gets a positive amount, and the amounts add up to the
/// total; a single recipient must get the whole total.
pub proof fn lemma_invoice_terms(total_amount: i128, items: Seq<BatchItem>, to: Seq<char>, amount: i128)
    ensures
        invoice_terms_valid(total_amount, items) <==> total_amount > 0
            && (forall|i: int| 0 <= i < items.len() ==> #[trigger] items[i].1 > 0)
            && amount_total(items) == total_amount,
        invoice_terms_valid(total_amount, seq![(to, amount)]) <==> total_amount > 0 && amount == total_amount,
{
    let one = seq![(to, amount)];
    assert(one.drop_last() =~= Seq::<BatchItem>::empty());
    assert(amount_total(one) == amount) by {
        reveal_with_fuel(amount_total, 2);
    }
    if amount > 0 {
        assert forall|i: int| 0 <= i < one.len() implies #[trigger] one[i].1 > 0 by {
            assert(one[i] == (to, amount));
        }
    }
    if all_positive(one) {
        assert(one[0].1 > 0);
    }
}

/// The status a release leaves: `Failed` when every payout failed,
/// `FullyReleased` when the whole total went out, `PartiallyReleased`
/// otherwise.
pub proof fn lemma_released_status(failed_count: int, recipients: int, released: i128, total: i128)
    ensures
        failed_count == recipients ==> released_status(failed_count, recipients, released, total) == InvoiceStatus::Failed,
        failed_count != recipients && released == total
            ==> released_status(failed_count, recipients, released, total) == InvoiceStatus::FullyReleased,
        failed_count != recipients && released != total
            ==> released_status(failed_count, recipients, released, total) == InvoiceStatus::PartiallyReleased,
{
}

/// A successful payout adds its amount to what the run released and marks
/// the invoice for update; a failed one counts a failure and releases
/// nothing. Either way the run moves to the next recipient.
pub proof fn lemma_payout_outcomes(run: ReleaseRun, amount: i128)
    requires
        i128::MIN <= run.total_to_release + amount <= i128::MAX,
        run.next < usize::MAX,
        run.failed_count < usize::MAX,
    ensures
        paid(run, amount).total_to_release == run.total_to_release + amount,
        paid(run, amount).invoice_updated,
        paid(run, amount).failed_count == run.failed_count,
        paid(run, amount).next == run.next + 1,
        unpaid(run).total_to_release == run.total_to_release,
        unpaid(run).invoice_updated == run.invoice_updated,
        unpaid(run).failed_count == run.failed_count + 1,
        unpaid(run).next == run.next + 1,
{
}

} // verus!

