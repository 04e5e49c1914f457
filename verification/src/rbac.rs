//! Roles, role bitmasks, and the role-based access-control ledger.
//!
//! Each address's roles are kept as one `u32` bitmask (`Admin` = 1,
//! `Minter` = 2, `SuperAdmin` = 4, `Pauser` = 8). Addresses granted roles by
//! earlier layouts may still hold legacy per-role flags; they are honoured
//! until the address's next write, which folds them into the bitmask.

use vstd::prelude::*;
use crate::address::{Address, is_zero_address, zero_address_view};
use crate::ledger_map::LedgerMap;

verus! {

/// Roles recognized by the access-control layer.
#[derive(Clone, Copy, PartialEq, Eq, Debug, Structural)]
pub enum Role {
    /// Full administrative control; implies every other role.
    Admin,
    /// Permission to mint new tokens.
    Minter,
    /// Highest-privilege role, reserved for owner-level operations.
    SuperAdmin,
    /// Emergency pause and unpause.
    Pauser,
}

/// The SuperAdmin role.
pub const SUPER_ADMIN_ROLE: Role = Role::SuperAdmin;

/// The Minter role.
pub const MINTER_ROLE: Role = Role::Minter;

/// Bitmask bit of the `Admin` role.
pub const ROLE_BIT_ADMIN: u32 = 1;
/// Bitmask bit of the `Minter` role.
pub const ROLE_BIT_MINTER: u32 = 2;
/// Bitmask bit of the `SuperAdmin` role.
pub const ROLE_BIT_SUPER_ADMIN: u32 = 4;
/// Bitmask bit of the `Pauser` role.
pub const ROLE_BIT_PAUSER: u32 = 8;

/// Errors returned by the access-control and governance layer. Each variant
/// has a stable numeric code, see [`AdminError::code`].
#[derive(Clone, Copy, PartialEq, Eq, Debug, Structural)]
pub enum AdminError {
    /// Unused; kept for code stability. Prefer `RoleNotHeld`.
    RoleNotGranted,
    /// The address does not hold the role.
    RoleNotHeld,
    /// The caller is not authorized for the role it needs.
    UnauthorizedRole,
    /// An operation was attempted with the zero address.
    InvalidAddress,
    /// The role is not recognized.
    InvalidRole,
    /// Storage was already initialized.
    AlreadyInitialized,
    /// The approval threshold is zero or larger than the pool.
    InvalidThreshold,
    /// No governance proposal exists under the identifier.
    ProposalNotFound,
    /// The proposal was already executed.
    ProposalAlreadyExecuted,
    /// The admin already approved the proposal.
    ProposalAlreadyApproved,
    /// The proposal has not reached the approval threshold.
    ThresholdNotMet,
    /// The proposal has not reached quorum.
    QuorumNotMet,
    /// The proposal's timelock has not expired yet.
    TimelockActive,
    /// The WASM hash is not a registered upgrade target.
    InvalidWasmHash,
    /// The caller is not the proposer.
    NotProposer,
    /// The proposal is cancelled or expired.
    ProposalNotCancellable,
    /// No upgrade proposal exists under the identifier.
    UpgradeProposalNotFound,
    /// The upgrade proposal is not open for votes.
    ProposalNotPending,
    /// The voter already voted on the proposal.
    DuplicateVote,
    /// Generic authorization failure.
    Unauthorized,
    /// The two lists of a batch differ in length.
    BatchLengthMismatch,
    /// The address already holds the role.
    RoleAlreadyGranted,
    /// The caller is not the creator of the governance proposal.
    NotProposalCreator,
}

/// The numeric code of each error.
pub open spec fn admin_error_code(e: AdminError) -> u32 {
    match e {
        AdminError::RoleNotGranted => 1,
        AdminError::RoleNotHeld => 2,
        AdminError::UnauthorizedRole => 3,
        AdminError::InvalidAddress => 4,
        AdminError::InvalidRole => 5,
        AdminError::AlreadyInitialized => 6,
        AdminError::InvalidThreshold => 7,
        AdminError::ProposalNotFound => 8,
        AdminError::ProposalAlreadyExecuted => 9,
        AdminError::ProposalAlreadyApproved => 10,
        AdminError::ThresholdNotMet => 11,
        AdminError::QuorumNotMet => 12,
        AdminError::TimelockActive => 13,
        AdminError::InvalidWasmHash => 14,
        AdminError::NotProposer => 15,
        AdminError::ProposalNotCancellable => 16,
        AdminError::UpgradeProposalNotFound => 17,
        AdminError::ProposalNotPending => 18,
        AdminError::DuplicateVote => 19,
        AdminError::Unauthorized => 20,
        AdminError::BatchLengthMismatch => 21,
        AdminError::RoleAlreadyGranted => 22,
        AdminError::NotProposalCreator => 23,
    }
}

impl AdminError {
    /// The stable numeric code of the error.
    pub fn code(self) -> (r: u32)
        ensures
            r == admin_error_code(self),
    {
        match self {
            AdminError::RoleNotGranted => 1,
            AdminError::RoleNotHeld => 2,
            AdminError::UnauthorizedRole => 3,
            AdminError::InvalidAddress => 4,
            AdminError::InvalidRole => 5,
            AdminError::AlreadyInitialized => 6,
            AdminError::InvalidThreshold => 7,
            AdminError::ProposalNotFound => 8,
            AdminError::ProposalAlreadyExecuted => 9,
            AdminError::ProposalAlreadyApproved => 10,
            AdminError::ThresholdNotMet => 11,
            AdminError::QuorumNotMet => 12,
            AdminError::TimelockActive => 13,
            AdminError::InvalidWasmHash => 14,
            AdminError::NotProposer => 15,
            AdminError::ProposalNotCancellable => 16,
            AdminError::UpgradeProposalNotFound => 17,
            AdminError::ProposalNotPending => 18,
            AdminError::DuplicateVote => 19,
            AdminError::Unauthorized => 20,
            AdminError::BatchLengthMismatch => 21,
            AdminError::RoleAlreadyGranted => 22,
            AdminError::NotProposalCreator => 23,
        }
    }
}

/// Bitflag representation of a role.
#[derive(Clone, Copy, PartialEq, Eq, Debug, Structural)]
pub enum RoleFlags {
    /// Bit 1.
    Admin,
    /// Bit 2.
    Minter,
    /// Bit 4.
    SuperAdmin,
    /// Bit 8.
    Pauser,
}

/// The bitmask bit of `role`.
pub open spec fn role_bit_of(role: Role) -> u32 {
    match role {
        Role::Admin => 1,
        Role::Minter => 2,
        Role::SuperAdmin => 4,
        Role::Pauser => 8,
    }
}

/// The bit value of a flag.
pub open spec fn flag_bits(flag: RoleFlags) -> u32 {
    match flag {
        RoleFlags::Admin => 1,
        RoleFlags::Minter => 2,
        RoleFlags::SuperAdmin => 4,
        RoleFlags::Pauser => 8,
    }
}

/// Whether `mask` has the bit of `role`.
pub open spec fn mask_holds(mask: u32, role: Role) -> bool {
    mask & role_bit_of(role) != 0
}

impl RoleFlags {
    /// The flag of `role`.
    pub fn from_role(role: Role) -> (r: RoleFlags)
        ensures
            flag_bits(r) == role_bit_of(role),
    {
        match role {
            Role::Admin => RoleFlags::Admin,
            Role::Minter => RoleFlags::Minter,
            Role::SuperAdmin => RoleFlags::SuperAdmin,
            Role::Pauser => RoleFlags::Pauser,
        }
    }

    /// The underlying bit value.
    pub fn bits(self) -> (r: u32)
        ensures
            r == flag_bits(self),
    {
        match self {
            RoleFlags::Admin => 1,
            RoleFlags::Minter => 2,
            RoleFlags::SuperAdmin => 4,
            RoleFlags::Pauser => 8,
        }
    }

    /// Whether `role` is set in `mask`.
    pub fn is_set(mask: u32, role: Role) -> (r: bool)
        ensures
            r == mask_holds(mask, role),
    {
        (mask & RoleFlags::from_role(role).bits()) != 0
    }
}

/// Returns the bitmask bit for `role`; every role has one.
fn role_bit(role: Role) -> (r: Option<u32>)
    ensures
        r == Some(role_bit_of(role)),
{
    match role {
        Role::Admin => Some(ROLE_BIT_ADMIN),
        Role::Minter => Some(ROLE_BIT_MINTER),
        Role::SuperAdmin => Some(ROLE_BIT_SUPER_ADMIN),
        Role::Pauser => Some(ROLE_BIT_PAUSER),
    }
}

/// Whether `mask` contains the bit for `role`.
pub fn mask_has_role(mask: u32, role: Role) -> (r: bool)
    ensures
        r == mask_holds(mask, role),
{
    match role_bit(role) {
        Some(bit) => mask & bit != 0,
        None => false,
    }
}

/// `mask` with the bit for `role` set.
pub fn mask_with_role(mask: u32, role: Role) -> (r: u32)
    ensures
        r == mask | role_bit_of(role),
{
    match role_bit(role) {
        Some(bit) => mask | bit,
        None => mask,
    }
}

/// `mask` with the bit for `role` cleared.
pub fn mask_without_role(mask: u32, role: Role) -> (r: u32)
    ensures
        r == mask & !role_bit_of(role),
{
    match role_bit(role) {
        Some(bit) => mask & !bit,
        None => mask,
    }
}

/// Bit facts about single role bits.
proof fn lemma_single_bits(m: u32, b: u32, c: u32)
    by (bit_vector)
    requires
        b == 1 || b == 2 || b == 4 || b == 8,
        c == 1 || c == 2 || c == 4 || c == 8,
    ensures
        (m | b) & b != 0,
        (m & !b) & b == 0,
        b != c ==> (((m | b) & c != 0) == (m & c != 0)),
        b != c ==> (((m & !b) & c != 0) == (m & c != 0)),
        (m & b != 0) ==> (m | b) == m,
        (m & b == 0) ==> (m & !b) == m,
        ((m | b) & !b) == (m & !b),
        b != c ==> b & c == 0,
{
}

/// Setting a role's bit makes the mask hold the role and leaves every
/// other role as it was; clearing it does the opposite.
pub proof fn lemma_mask_role_updates(mask: u32, role: Role, other: Role)
    ensures
        mask_holds(mask | role_bit_of(role), role),
        !mask_holds(mask & !role_bit_of(role), role),
        other != role ==> mask_holds(mask | role_bit_of(role), other) == mask_holds(mask, other),
        other != role ==> mask_holds(mask & !role_bit_of(role), other) == mask_holds(mask, other),
{
    lemma_single_bits(mask, role_bit_of(role), role_bit_of(other));
}

/// Setting a bit that is already set, or clearing one that is already
/// clear, leaves the mask unchanged; clearing after setting is clearing.
pub proof fn lemma_mask_idempotent(mask: u32, role: Role)
    ensures
        mask_holds(mask, role) ==> (mask | role_bit_of(role)) == mask,
        !mask_holds(mask, role) ==> (mask & !role_bit_of(role)) == mask,
        ((mask | role_bit_of(role)) & !role_bit_of(role)) == (mask & !role_bit_of(role)),
{
    lemma_single_bits(mask, role_bit_of(role), role_bit_of(role));
}

/// Returns `true` if `role` is one of the recognized variants; every value of
/// `Role` is.
fn is_valid_role(role: Role) -> (r: bool)
    ensures
        r,
{
    match role {
        Role::Admin | Role::Minter | Role::SuperAdmin | Role::Pauser => true,
    }
}

/// The role mask an address holds given the mask slots `masks` and the
/// legacy per-role flags `legacy`: the mask slot when present, otherwise the
/// legacy flags, otherwise nothing.
pub open spec fn mask_in(masks: Map<Seq<char>, u32>, legacy: Map<Seq<char>, u32>, a: Seq<char>) -> u32 {
    if masks.contains_key(a) {
        masks[a]
    } else if legacy.contains_key(a) {
        legacy[a]
    } else {
        0
    }
}

/// The mask slots after writing `mask` for `a`: an empty mask removes the slot.
pub open spec fn masks_with(masks: Map<Seq<char>, u32>, a: Seq<char>, mask: u32) -> Map<Seq<char>, u32> {
    if mask == 0 {
        masks.remove(a)
    } else {
        masks.insert(a, mask)
    }
}

/// The bitmask reported for a stored mask: every role for an admin,
/// otherwise the non-admin role bits.
pub open spec fn reported_mask(m: u32) -> u32 {
    if m & 1 != 0 {
        15
    } else {
        m & 14
    }
}

/// The access-control ledger: the contract admin and each address's roles.
pub struct AccessControl {
    /// The contract admin, once set.
    pub admin: Option<Address>,
    /// Role bitmask of each address that has one.
    pub role_masks: LedgerMap<Address, u32>,
    /// Role bits of legacy per-role flags still stored for an address.
    pub legacy_roles: LedgerMap<Address, u32>,
    /// Addresses recorded as super-admins by `migrate_admin`.
    pub super_admins: LedgerMap<Address, bool>,
}

/// The access-control ledger as plain values.
pub struct AccessView {
    pub admin: Option<Seq<char>>,
    pub role_masks: Map<Seq<char>, u32>,
    pub legacy_roles: Map<Seq<char>, u32>,
    pub super_admins: Map<Seq<char>, bool>,
}

impl AccessView {
    /// The role mask `a` holds.
    pub open spec fn mask_of(self, a: Seq<char>) -> u32 {
        mask_in(self.role_masks, self.legacy_roles, a)
    }

    /// Whether `a` holds `role`, directly or through the `Admin` role. The
    /// zero address holds nothing.
    pub open spec fn holds(self, role: Role, a: Seq<char>) -> bool {
        a != zero_address_view() && (mask_holds(self.mask_of(a), role) || mask_holds(self.mask_of(a), Role::Admin))
    }
}

impl View for AccessControl {
    type V = AccessView;

    open spec fn view(&self) -> AccessView {
        AccessView {
            admin: self.admin_view(),
            role_masks: self.role_masks@,
            legacy_roles: self.legacy_roles@,
            super_admins: self.super_admins@,
        }
    }
}

impl AccessControl {
    /// The admin's address, if one is set.
    pub open spec fn admin_view(&self) -> Option<Seq<char>> {
        match self.admin {
            Some(a) => Some(a@),
            None => None,
        }
    }

    /// The role mask `a` holds.
    pub open spec fn mask_of(&self, a: Seq<char>) -> u32 {
        self@.mask_of(a)
    }

    /// Whether `a` holds `role`, directly or through the `Admin` role. The
    /// zero address holds nothing.
    pub open spec fn holds(&self, role: Role, a: Seq<char>) -> bool {
        self@.holds(role, a)
    }

    /// `post` is `pre` with `mask` written as the role mask of `a` and `a`'s
    /// legacy flags removed.
    pub open spec fn persisted(pre: &AccessControl, post: &AccessControl, a: Seq<char>, mask: u32) -> bool {
        &&& post.role_masks@ == masks_with(pre.role_masks@, a, mask)
        &&& post.legacy_roles@ == pre.legacy_roles@.remove(a)
        &&& post.admin_view() == pre.admin_view()
        &&& post.super_admins@ == pre.super_admins@
    }

    /// `post` holds the same ledger as `pre`.
    pub open spec fn same(pre: &AccessControl, post: &AccessControl) -> bool {
        &&& post.role_masks@ == pre.role_masks@
        &&& post.legacy_roles@ == pre.legacy_roles@
        &&& post.admin_view() == pre.admin_view()
        &&& post.super_admins@ == pre.super_admins@
    }

    /// An empty ledger: no admin and no roles.
    pub fn new() -> (r: AccessControl)
        ensures
            r.admin is None,
            r.role_masks@ == Map::<Seq<char>, u32>::empty(),
            r.legacy_roles@ == Map::<Seq<char>, u32>::empty(),
            r.super_admins@ == Map::<Seq<char>, bool>::empty(),
    {
        AccessControl {
            admin: None,
            role_masks: LedgerMap::new(),
            legacy_roles: LedgerMap::new(),
            super_admins: LedgerMap::new(),
        }
    }
}

/// What `grant_role` by `caller` of `role` to `a` answers.
pub open spec fn grant_result(v: AccessView, caller: Seq<char>, role: Role, a: Seq<char>) -> Result<(), AdminError> {
    if !v.holds(Role::SuperAdmin, caller) {
        Err(AdminError::UnauthorizedRole)
    } else if a == zero_address_view() {
        Err(AdminError::InvalidAddress)
    } else if mask_holds(v.mask_of(a), role) {
        Err(AdminError::RoleAlreadyGranted)
    } else {
        Ok(())
    }
}

/// What `revoke_role` by `caller` of `role` from `a` answers.
pub open spec fn revoke_result(v: AccessView, caller: Seq<char>, role: Role, a: Seq<char>) -> Result<(), AdminError> {
    if !v.holds(Role::SuperAdmin, caller) {
        Err(AdminError::UnauthorizedRole)
    } else if a == zero_address_view() {
        Err(AdminError::InvalidAddress)
    } else if !mask_holds(v.mask_of(a), role) {
        Err(AdminError::RoleNotHeld)
    } else {
        Ok(())
    }
}

/// What `init_storage` with `admin` answers.
pub open spec fn init_result(v: AccessView, admin: Seq<char>) -> Result<(), AdminError> {
    if v.admin is Some {
        Err(AdminError::AlreadyInitialized)
    } else if admin == zero_address_view() {
        Err(AdminError::InvalidAddress)
    } else {
        Ok(())
    }
}

/// Loads the role bitmask of `address`.
fn load_role_mask(store: &AccessControl, address: &Address) -> (r: u32)
    ensures
        r == store.mask_of(address@),
{
    match store.role_masks.get(address) {
        Some(m) => *m,
        None => match store.legacy_roles.get(address) {
            Some(l) => *l,
            None => 0,
        },
    }
}

/// Writes `mask` as the role bitmask of `address` and drops its legacy flags.
fn persist_role_mask(store: &mut AccessControl, address: &Address, mask: u32)
    ensures
        AccessControl::persisted(old(store), final(store), address@, mask),
{
    if mask == 0 {
        store.role_masks.remove(address);
    } else {
        store.role_masks.set(address.duplicate(), mask);
    }
    store.legacy_roles.remove(address);
}

/// One-time initialization: sets `admin` as the contract admin holding
/// exactly the `Admin` role.
pub fn init_storage(store: &mut AccessControl, admin: &Address) -> (r: Result<(), AdminError>)
    ensures
        r == init_result(old(store)@, admin@),
        r is Err ==> AccessControl::same(old(store), final(store)),
        r is Ok ==> final(store).admin_view() == Some(admin@)
            && final(store).role_masks@ == old(store).role_masks@.insert(admin@, 1)
            && final(store).legacy_roles@ == old(store).legacy_roles@.remove(admin@)
            && final(store).super_admins@ == old(store).super_admins@,
{
    if store.admin.is_some() {
        return Err(AdminError::AlreadyInitialized);
    }
    if is_zero_address(admin) {
        return Err(AdminError::InvalidAddress);
    }
    persist_role_mask(store, admin, ROLE_BIT_ADMIN);
    store.admin = Some(admin.duplicate());
    Ok(())
}

/// Whether a contract admin is set.
pub fn has_admin(store: &AccessControl) -> (r: bool)
    ensures
        r == store.admin is Some,
{
    store.admin.is_some()
}

/// The contract admin.
pub fn get_admin(store: &AccessControl) -> (r: &Address)
    requires
        store.admin is Some,
    ensures
        Some(r@) == store.admin_view(),
{
    store.admin.as_ref().unwrap()
}

/// Clears `role` from `address`'s mask, if it is set.
fn clear_role_bit(store: &mut AccessControl, address: &Address, role: Role)
    ensures
        mask_holds(old(store).mask_of(address@), role) ==> AccessControl::persisted(
            old(store),
            final(store),
            address@,
            old(store).mask_of(address@) & !role_bit_of(role),
        ),
        !mask_holds(old(store).mask_of(address@), role) ==> AccessControl::same(old(store), final(store)),
{
    let bit = role_bit(role).unwrap();
    let mask = load_role_mask(store, address);
    if mask & bit != 0 {
        persist_role_mask(store, address, mask & !bit);
    }
}

/// The ledger after `set_admin(a)` succeeds on `pre`: the previous admin's
/// `Admin` bit is cleared, then `a` becomes the admin and gains the bit.
pub open spec fn set_admin_post(pre: &AccessControl, post: &AccessControl, a: Seq<char>) -> bool {
    let (m1, l1) = match pre.admin_view() {
        Some(o) => if mask_holds(pre.mask_of(o), Role::Admin) {
            (masks_with(pre.role_masks@, o, pre.mask_of(o) & !1u32), pre.legacy_roles@.remove(o))
        } else {
            (pre.role_masks@, pre.legacy_roles@)
        },
        None => (pre.role_masks@, pre.legacy_roles@),
    };
    &&& post.admin_view() == Some(a)
    &&& post.role_masks@ == masks_with(m1, a, mask_in(m1, l1, a) | 1u32)
    &&& post.legacy_roles@ == l1.remove(a)
    &&& post.super_admins@ == pre.super_admins@
}

/// Whether `set_admin(a)` on `pre` fails because `a` would already hold the
/// `Admin` role once the previous admin's bit is cleared.
pub open spec fn set_admin_conflicts(pre: &AccessControl, a: Seq<char>) -> bool {
    mask_holds(pre.mask_of(a), Role::Admin) && pre.admin_view() != Some(a)
}

/// Sets `admin` as the contract admin, moving the `Admin` role to it.
pub fn set_admin(store: &mut AccessControl, admin: &Address) -> (r: Result<(), AdminError>)
    ensures
        r == (if admin@ == zero_address_view() {
            Err(AdminError::InvalidAddress)
        } else if set_admin_conflicts(old(store), admin@) {
            Err(AdminError::RoleAlreadyGranted)
        } else {
            Ok(())
        }),
        r is Err ==> AccessControl::same(old(store), final(store)),
        r is Ok ==> set_admin_post(old(store), final(store), admin@),
{
    if is_zero_address(admin) {
        return Err(AdminError::InvalidAddress);
    }
    let target_mask = load_role_mask(store, admin);
    let is_current = match &store.admin {
        Some(old_admin) => old_admin.same(admin),
        None => false,
    };
    if mask_has_role(target_mask, Role::Admin) && !is_current {
        return Err(AdminError::RoleAlreadyGranted);
    }
    let ghost pre = *store;
    if store.admin.is_some() {
        let old_admin = store.admin.as_ref().unwrap().duplicate();
        clear_role_bit(store, &old_admin, Role::Admin);
    }
    let ghost mid = *store;
    store.admin = Some(admin.duplicate());
    let mask = load_role_mask(store, admin);
    proof {
        if pre.admin_view() is Some && pre.admin_view() != Some(admin@) {
            let o = pre.admin_view().unwrap();
            assert(mid.role_masks@.contains_key(admin@) == pre.role_masks@.contains_key(admin@));
        }
        if pre.admin_view() == Some(admin@) {
            lemma_mask_role_updates(pre.mask_of(admin@), Role::Admin, Role::Admin);
        }
        assert(!mask_holds(mask, Role::Admin));
    }
    persist_role_mask(store, admin, mask | ROLE_BIT_ADMIN);
    Ok(())
}

/// Records the current admin as a super-admin; does nothing when no admin
/// is set.
pub fn migrate_admin(store: &mut AccessControl)
    ensures
        final(store).admin_view() == old(store).admin_view(),
        final(store).role_masks@ == old(store).role_masks@,
        final(store).legacy_roles@ == old(store).legacy_roles@,
        final(store).super_admins@ == match old(store).admin_view() {
            Some(a) => old(store).super_admins@.insert(a, true),
            None => old(store).super_admins@,
        },
{
    if store.admin.is_some() {
        let a = store.admin.as_ref().unwrap().duplicate();
        store.super_admins.set(a, true);
    }
}

/// Refuses the zero-address sentinel with `InvalidAddress`.
pub fn require_non_zero_address(address: &Address) -> (r: Result<(), AdminError>)
    ensures
        r == (if address@ == zero_address_view() { Err(AdminError::InvalidAddress) } else { Ok(()) }),
{
    if is_zero_address(address) {
        return Err(AdminError::InvalidAddress);
    }
    Ok(())
}

/// Whether `address` holds `role`, directly or through the `Admin` role.
/// The zero address never holds a role.
pub fn has_role(store: &AccessControl, role: Role, address: &Address) -> (r: bool)
    ensures
        r == store.holds(role, address@),
{
    if is_zero_address(address) {
        return false;
    }
    let mask = load_role_mask(store, address);
    if role != Role::Admin && mask & ROLE_BIT_ADMIN != 0 {
        return true;
    }
    mask_has_role(mask, role)
}

/// Checks that `address` holds `role`.
pub fn require_role(store: &AccessControl, role: Role, address: &Address) -> (r: Result<(), AdminError>)
    ensures
        r == (if store.holds(role, address@) { Ok(()) } else { Err(AdminError::RoleNotHeld) }),
{
    if !is_valid_role(role) {
        return Err(AdminError::InvalidRole);
    }
    if !has_role(store, role, address) {
        return Err(AdminError::RoleNotHeld);
    }
    Ok(())
}

/// The address that governs `role`: the contract admin, for every role.
pub fn get_role_admin(store: &AccessControl, role: Role) -> (r: &Address)
    requires
        store.admin is Some,
    ensures
        Some(r@) == store.admin_view(),
{
    get_admin(store)
}

/// Checks that `address` holds `role`, failing with `UnauthorizedRole`.
pub fn require_role_guard(store: &AccessControl, role: Role, address: &Address) -> (r: Result<(), AdminError>)
    ensures
        r == (if store.holds(role, address@) { Ok(()) } else { Err(AdminError::UnauthorizedRole) }),
{
    if !has_role(store, role, address) {
        return Err(AdminError::UnauthorizedRole);
    }
    Ok(())
}

/// Checks that `address` holds the `Admin` role.
pub fn require_admin(store: &AccessControl, address: &Address) -> (r: Result<(), AdminError>)
    ensures
        r == (if store.holds(Role::Admin, address@) { Ok(()) } else { Err(AdminError::UnauthorizedRole) }),
{
    require_role_guard(store, Role::Admin, address)
}

/// Checks that `address` holds the `Minter` role.
pub fn require_minter(store: &AccessControl, address: &Address) -> (r: Result<(), AdminError>)
    ensures
        r == (if store.holds(Role::Minter, address@) { Ok(()) } else { Err(AdminError::UnauthorizedRole) }),
{
    require_role_guard(store, Role::Minter, address)
}

/// Checks that `address` holds the `SuperAdmin` role.
pub fn require_super_admin(store: &AccessControl, address: &Address) -> (r: Result<(), AdminError>)
    ensures
        r == (if store.holds(Role::SuperAdmin, address@) { Ok(()) } else { Err(AdminError::UnauthorizedRole) }),
{
    require_role_guard(store, SUPER_ADMIN_ROLE, address)
}

/// Checks that `address` may administer fees, which the `Admin` role governs.
pub fn require_fee_admin(store: &AccessControl, address: &Address) -> (r: Result<(), AdminError>)
    ensures
        r == (if store.holds(Role::Admin, address@) { Ok(()) } else { Err(AdminError::UnauthorizedRole) }),
{
    require_role_guard(store, Role::Admin, address)
}

/// Checks that `address` holds the `Pauser` role.
pub fn require_pauser(store: &AccessControl, address: &Address) -> (r: Result<(), AdminError>)
    ensures
        r == (if store.holds(Role::Pauser, address@) { Ok(()) } else { Err(AdminError::UnauthorizedRole) }),
{
    require_role_guard(store, Role::Pauser, address)
}

/// Whether `address`'s mask holds the `Admin` or the `Pauser` bit.
pub fn is_admin_or_pauser(store: &AccessControl, address: &Address) -> (r: bool)
    ensures
        r == (mask_holds(store.mask_of(address@), Role::Admin) || mask_holds(store.mask_of(address@), Role::Pauser)),
{
    let mask = load_role_mask(store, address);
    mask_has_role(mask, Role::Admin) || mask_has_role(mask, Role::Pauser)
}

/// Writes the assignment of `role` to `address` after authorization.
pub fn grant_role_unchecked(store: &mut AccessControl, role: Role, address: &Address) -> (r: Result<(), AdminError>)
    ensures
        r == (if address@ == zero_address_view() {
            Err(AdminError::InvalidAddress)
        } else if mask_holds(old(store).mask_of(address@), role) {
            Err(AdminError::RoleAlreadyGranted)
        } else {
            Ok(())
        }),
        r is Err ==> AccessControl::same(old(store), final(store)),
        r is Ok ==> AccessControl::persisted(old(store), final(store), address@,
            old(store).mask_of(address@) | role_bit_of(role)),
{
    if is_zero_address(address) {
        return Err(AdminError::InvalidAddress);
    }
    let bit = role_bit(role).unwrap();
    let mask = load_role_mask(store, address);
    if mask & bit != 0 {
        return Err(AdminError::RoleAlreadyGranted);
    }
    persist_role_mask(store, address, mask | bit);
    Ok(())
}

/// Grants `role` to `address`; `caller` must hold the `SuperAdmin` role.
pub fn grant_role(store: &mut AccessControl, caller: &Address, role: Role, address: &Address) -> (r: Result<(), AdminError>)
    ensures
        r == grant_result(old(store)@, caller@, role, address@),
        r is Err ==> AccessControl::same(old(store), final(store)),
        r is Ok ==> AccessControl::persisted(old(store), final(store), address@,
            old(store).mask_of(address@) | role_bit_of(role)),
{
    require_super_admin(store, caller)?;
    if is_zero_address(address) {
        return Err(AdminError::InvalidAddress);
    }
    if !is_valid_role(role) {
        return Err(AdminError::InvalidRole);
    }
    grant_role_unchecked(store, role, address)
}

/// The role bitmask of `address`: every role bit when it holds `Admin`,
/// otherwise the bits of the roles it holds; `0` for the zero address.
pub fn get_roles_bitmask(store: &AccessControl, address: &Address) -> (r: u32)
    ensures
        r == (if address@ == zero_address_view() { 0 } else { reported_mask(store.mask_of(address@)) }),
{
    if is_zero_address(address) {
        return 0;
    }
    let role_mask = load_role_mask(store, address);
    proof {
        lemma_reported_bits(role_mask);
    }
    if (role_mask & ROLE_BIT_ADMIN) != 0 {
        return RoleFlags::Admin.bits() | RoleFlags::Minter.bits() | RoleFlags::SuperAdmin.bits()
            | RoleFlags::Pauser.bits();
    }
    let mut mask: u32 = 0;
    let minter: u32 = if (role_mask & ROLE_BIT_MINTER) != 0 { RoleFlags::Minter.bits() } else { 0 };
    mask = mask | minter;
    let super_admin: u32 = if (role_mask & ROLE_BIT_SUPER_ADMIN) != 0 { RoleFlags::SuperAdmin.bits() } else { 0 };
    mask = mask | super_admin;
    let pauser: u32 = if (role_mask & ROLE_BIT_PAUSER) != 0 { RoleFlags::Pauser.bits() } else { 0 };
    mask = mask | pauser;
    mask
}

/// The non-admin bits of a mask, assembled bit by bit, are its `& 14`.
proof fn lemma_reported_bits(m: u32)
    by (bit_vector)
    ensures
        (m & 1 == 0) ==> ((((0u32 | (if m & 2 != 0 { 2u32 } else { 0u32 })) | (if m & 4 != 0 { 4u32 } else { 0u32 }))
            | (if m & 8 != 0 { 8u32 } else { 0u32 })) == m & 14),
        (1u32 | 2u32 | 4u32 | 8u32) == 15u32,
{
}

/// Checks that `address` does not hold `role` yet.
pub fn validate_role_not_granted(store: &AccessControl, role: Role, address: &Address) -> (r: Result<(), AdminError>)
    ensures
        r == (if address@ == zero_address_view() {
            Err(AdminError::InvalidAddress)
        } else if mask_holds(reported_mask(store.mask_of(address@)), role) {
            Err(AdminError::RoleAlreadyGranted)
        } else {
            Ok(())
        }),
{
    if is_zero_address(address) {
        return Err(AdminError::InvalidAddress);
    }
    if !is_valid_role(role) {
        return Err(AdminError::InvalidRole);
    }
    let current_mask = get_roles_bitmask(store, address);
    if RoleFlags::is_set(current_mask, role) {
        return Err(AdminError::RoleAlreadyGranted);
    }
    Ok(())
}

/// Grants `role` to `address` only if it does not hold it yet, counting
/// the roles an admin holds implicitly.
pub fn grant_role_checked(store: &mut AccessControl, caller: &Address, role: Role, address: &Address) -> (r: Result<(), AdminError>)
    ensures
        r == (if address@ == zero_address_view() {
            Err(AdminError::InvalidAddress)
        } else if mask_holds(reported_mask(old(store).mask_of(address@)), role) {
            Err(AdminError::RoleAlreadyGranted)
        } else if !old(store).holds(Role::SuperAdmin, caller@) {
            Err(AdminError::UnauthorizedRole)
        } else if mask_holds(old(store).mask_of(address@), role) {
            Err(AdminError::RoleAlreadyGranted)
        } else {
            Ok(())
        }),
        r is Err ==> AccessControl::same(old(store), final(store)),
        r is Ok ==> AccessControl::persisted(old(store), final(store), address@,
            old(store).mask_of(address@) | role_bit_of(role)),
{
    validate_role_not_granted(store, role, address)?;
    grant_role(store, caller, role, address)
}

/// Removes `role` from `address`; `caller` must hold the `SuperAdmin` role.
pub fn revoke_role(store: &mut AccessControl, caller: &Address, role: Role, address: &Address) -> (r: Result<(), AdminError>)
    ensures
        r == revoke_result(old(store)@, caller@, role, address@),
        r is Err ==> AccessControl::same(old(store), final(store)),
        r is Ok ==> AccessControl::persisted(old(store), final(store), address@,
            old(store).mask_of(address@) & !role_bit_of(role)),
{
    require_super_admin(store, caller)?;
    if !is_valid_role(role) {
        return Err(AdminError::InvalidRole);
    }
    if is_zero_address(address) {
        return Err(AdminError::InvalidAddress);
    }
    revoke_role_unchecked(store, role, address)
}

/// Removes the assignment of `role` from `address` after authorization.
pub fn revoke_role_unchecked(store: &mut AccessControl, role: Role, address: &Address) -> (r: Result<(), AdminError>)
    ensures
        r == (if address@ == zero_address_view() {
            Err(AdminError::InvalidAddress)
        } else if !mask_holds(old(store).mask_of(address@), role) {
            Err(AdminError::RoleNotHeld)
        } else {
            Ok(())
        }),
        r is Err ==> AccessControl::same(old(store), final(store)),
        r is Ok ==> AccessControl::persisted(old(store), final(store), address@,
            old(store).mask_of(address@) & !role_bit_of(role)),
{
    if is_zero_address(address) {
        return Err(AdminError::InvalidAddress);
    }
    let bit = role_bit(role).unwrap();
    let mask = load_role_mask(store, address);
    if mask & bit == 0 {
        return Err(AdminError::RoleNotHeld);
    }
    persist_role_mask(store, address, mask & !bit);
    Ok(())
}

/// After a grant of `role` to `a` is written, `a` holds `role`, keeps every
/// other role it had, and every other address keeps its mask.
pub proof fn lemma_grant_then_holds(pre: &AccessControl, post: &AccessControl, a: Seq<char>, role: Role)
    requires
        a != zero_address_view(),
        AccessControl::persisted(pre, post, a, pre.mask_of(a) | role_bit_of(role)),
    ensures
        post.holds(role, a),
        mask_holds(post.mask_of(a), role),
        forall|r: Role| r != role ==> mask_holds(#[trigger] post.mask_of(a), r) == mask_holds(pre.mask_of(a), r),
        forall|b: Seq<char>| b != a ==> #[trigger] post.mask_of(b) == pre.mask_of(b),
{
    lemma_mask_role_updates(pre.mask_of(a), role, role);
    assert forall|r: Role| r != role implies mask_holds(#[trigger] post.mask_of(a), r) == mask_holds(pre.mask_of(a), r) by {
        lemma_mask_role_updates(pre.mask_of(a), role, r);
    }
}

/// After a revocation of `role` from `a` is written, `a`'s mask no longer
/// holds `role`, keeps every other role, and every other address keeps its
/// mask. Unless `a` holds `Admin`, it no longer has `role`.
pub proof fn lemma_revoke_then_lacks(pre: &AccessControl, post: &AccessControl, a: Seq<char>, role: Role)
    requires
        AccessControl::persisted(pre, post, a, pre.mask_of(a) & !role_bit_of(role)),
    ensures
        !mask_holds(post.mask_of(a), role),
        forall|r: Role| r != role ==> mask_holds(#[trigger] post.mask_of(a), r) == mask_holds(pre.mask_of(a), r),
        forall|b: Seq<char>| b != a ==> #[trigger] post.mask_of(b) == pre.mask_of(b),
        !mask_holds(post.mask_of(a), Role::Admin) ==> !post.holds(role, a),
{
    lemma_mask_role_updates(pre.mask_of(a), role, role);
    assert forall|r: Role| r != role implies mask_holds(#[trigger] post.mask_of(a), r) == mask_holds(pre.mask_of(a), r) by {
        lemma_mask_role_updates(pre.mask_of(a), role, r);
    }
}

/// Revoking a role right after granting it to an address that lacked it
/// gives every address its former mask back.
pub proof fn lemma_revoke_undoes_grant(pre: &AccessControl, mid: &AccessControl, post: &AccessControl, a: Seq<char>, role: Role)
    requires
        !mask_holds(pre.mask_of(a), role),
        AccessControl::persisted(pre, mid, a, pre.mask_of(a) | role_bit_of(role)),
        AccessControl::persisted(mid, post, a, mid.mask_of(a) & !role_bit_of(role)),
    ensures
        forall|b: Seq<char>| #[trigger] post.mask_of(b) == pre.mask_of(b),
        post.admin_view() == pre.admin_view(),
{
    lemma_mask_role_updates(pre.mask_of(a), role, role);
    lemma_mask_idempotent(pre.mask_of(a), role);
    assert(mid.mask_of(a) == pre.mask_of(a) | role_bit_of(role));
}

/// An address whose mask holds `Admin` has every role.
pub proof fn lemma_admin_has_every_role(v: AccessView, a: Seq<char>, role: Role)
    requires
        a != zero_address_view(),
        mask_holds(v.mask_of(a), Role::Admin),
    ensures
        v.holds(role, a),
{
}

/// Setting the admin makes the new admin hold `Admin`, and so every role;
/// a former admin that is another address loses its `Admin` bit.
pub proof fn lemma_set_admin_moves_admin(pre: &AccessControl, post: &AccessControl, a: Seq<char>)
    requires
        a != zero_address_view(),
        set_admin_post(pre, post, a),
    ensures
        post.admin_view() == Some(a),
        mask_holds(post.mask_of(a), Role::Admin),
        forall|r: Role| #[trigger] post.holds(r, a),
        pre.admin_view() is Some && pre.admin_view().unwrap() != a
            ==> !mask_holds(post.mask_of(pre.admin_view().unwrap()), Role::Admin),
{
    let (m1, l1) = match pre.admin_view() {
        Some(o) => if mask_holds(pre.mask_of(o), Role::Admin) {
            (masks_with(pre.role_masks@, o, pre.mask_of(o) & !1u32), pre.legacy_roles@.remove(o))
        } else {
            (pre.role_masks@, pre.legacy_roles@)
        },
        None => (pre.role_masks@, pre.legacy_roles@),
    };
    lemma_mask_role_updates(mask_in(m1, l1, a), Role::Admin, Role::Admin);
    assert(post.mask_of(a) == mask_in(m1, l1, a) | 1u32);
    if pre.admin_view() is Some {
        let o = pre.admin_view().unwrap();
        if o != a {
            lemma_mask_role_updates(pre.mask_of(o), Role::Admin, Role::Admin);
            if mask_holds(pre.mask_of(o), Role::Admin) {
                assert(mask_in(m1, l1, o) == pre.mask_of(o) & !1u32);
            }
            assert(post.mask_of(o) == mask_in(m1, l1, o));
        }
    }
}

/// A super-admin (or the admin) may grant any role to any non-zero address
/// that does not hold it yet; nobody else may grant anything.
pub proof fn lemma_super_admin_grants(v: AccessView, caller: Seq<char>, role: Role, a: Seq<char>)
    ensures
        grant_result(v, caller, role, a) is Ok <==> v.holds(Role::SuperAdmin, caller)
            && a != zero_address_view() && !mask_holds(v.mask_of(a), role),
        !v.holds(Role::SuperAdmin, caller) ==> grant_result(v, caller, role, a) == Err::<(), AdminError>(AdminError::UnauthorizedRole),
{
}

/// A super-admin (or the admin) may revoke any role that a non-zero address
/// holds in its own mask; revoking a role that is not held is refused.
pub proof fn lemma_super_admin_revokes(v: AccessView, caller: Seq<char>, role: Role, a: Seq<char>)
    ensures
        revoke_result(v, caller, role, a) is Ok <==> v.holds(Role::SuperAdmin, caller)
            && a != zero_address_view() && mask_holds(v.mask_of(a), role),
{
}

/// Storage is initialized once: the first call with a non-zero admin
/// succeeds, every later one is refused.
pub proof fn lemma_init_once(v: AccessView, admin: Seq<char>, other: Seq<char>)
    ensures
        init_result(v, admin) is Ok <==> v.admin is None && admin != zero_address_view(),
        init_result(AccessView { admin: Some(admin), ..v }, other) == Err::<(), AdminError>(AdminError::AlreadyInitialized),
{
}

/// The zero address never holds a role, whatever its stored mask.
pub proof fn lemma_zero_address_holds_nothing(v: AccessView, role: Role)
    ensures
        !v.holds(role, zero_address_view()),
{
}

} // verus!

