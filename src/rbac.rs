//! Role-based access control: a single role per address, the super-admin
//! pointer, and the guards every other operation goes through.
use vstd::prelude::*;
use crate::Error;
use crate::model;
use crate::model::{LedgerState, follows, is_admin_or_above, can_register, init_spec, grant_spec, revoke_spec, transfer_spec};
use crate::storage::Storage;
use crate::types::Address;

verus! {

/// The roles an address can hold; an address holds at most one.
#[derive(Clone, Copy, Debug, PartialEq, Eq, Structural)]
pub enum Role {
    /// Full protocol control: grants any role, transfers itself.
    SuperAdmin,
    /// Grants and revokes the roles below SuperAdmin, pauses the protocol.
    Admin,
    /// Submits proofs through `verify_and_release`.
    Oracle,
    /// Read-only observer.
    Auditor,
    /// Registers projects.
    ProjectManager,
}

} // verus!

verus! {

/// The role held by `address`, if any.
pub fn get_role(storage: &Storage, address: &Address) -> (r: Option<Role>)
    requires
        storage.wf(),
    ensures
        r == model::role_of(storage@, address@),
{
    storage.get_role(address)
}

/// The super-admin pointer, unset before `init`.
pub fn get_super_admin(storage: &Storage) -> (r: Option<Address>)
    ensures
        match r {
            Some(x) => storage@.super_admin == Some(x@),
            None => storage@.super_admin is None,
        },
{
    storage.get_super_admin()
}

/// Set the first SuperAdmin; fails once one exists.
pub fn init_super_admin(storage: &mut Storage, super_admin: &Address) -> (r: Result<(), Error>)
    requires
        old(storage).wf(),
    ensures
        final(storage).wf(),
        follows(r, old(storage)@, final(storage)@, init_spec(old(storage)@, super_admin@)),
{
    if storage.get_super_admin().is_some() {
        return Err(Error::AlreadyInitialized);
    }
    storage.set_super_admin(super_admin);
    storage.store_role(super_admin, Role::SuperAdmin);
    Ok(())
}

/// Give `role` to `target`, replacing any role it held. Only a SuperAdmin
/// grants SuperAdmin; SuperAdmin or Admin grant the rest; a SuperAdmin is
/// never demoted this way.
pub fn grant_role(storage: &mut Storage, caller: &Address, target: &Address, role: Role) -> (r:
    Result<(), Error>)
    requires
        old(storage).wf(),
    ensures
        final(storage).wf(),
        follows(r, old(storage)@, final(storage)@, grant_spec(old(storage)@, caller@, target@, role)),
{
    match role {
        Role::SuperAdmin => require_role(storage, caller, Role::SuperAdmin)?,
        _ => require_admin_or_above(storage, caller)?,
    }
    if get_role(storage, target) == Some(Role::SuperAdmin) && role != Role::SuperAdmin {
        return Err(Error::NotAuthorized);
    }
    storage.store_role(target, role);
    Ok(())
}

/// Remove the role of `target`; returns whether it held one. SuperAdmin or
/// Admin only, and never the super-admin pointer's address.
pub fn revoke_role(storage: &mut Storage, caller: &Address, target: &Address) -> (r: Result<
    bool,
    Error,
>)
    requires
        old(storage).wf(),
    ensures
        final(storage).wf(),
        follows(r, old(storage)@, final(storage)@, revoke_spec(old(storage)@, caller@, target@)),
        r matches Ok(held) ==> held == old(storage)@.roles.contains_key(target@),
{
    require_admin_or_above(storage, caller)?;
    match storage.get_super_admin() {
        Some(s) => {
            if s.same(target) {
                return Err(Error::NotAuthorized);
            }
        },
        None => {},
    }
    if get_role(storage, target).is_some() {
        storage.clear_role(target);
        Ok(true)
    } else {
        proof {
            assert(storage@.roles.remove(target@) =~= storage@.roles);
            assert(storage@ == (LedgerState { roles: storage@.roles.remove(target@), ..storage@ }));
        }
        Ok(false)
    }
}

/// Hand the SuperAdmin role from `current`, which must hold it, to `new`.
pub fn transfer_super_admin(storage: &mut Storage, current: &Address, new: &Address) -> (r: Result<
    (),
    Error,
>)
    requires
        old(storage).wf(),
    ensures
        final(storage).wf(),
        follows(r, old(storage)@, final(storage)@, transfer_spec(old(storage)@, current@, new@)),
{
    require_role(storage, current, Role::SuperAdmin)?;
    storage.clear_role(current);
    storage.set_super_admin(new);
    storage.store_role(new, Role::SuperAdmin);
    Ok(())
}

/// Succeeds exactly when `address` holds `required`.
pub fn require_role(storage: &Storage, address: &Address, required: Role) -> (r: Result<(), Error>)
    requires
        storage.wf(),
    ensures
        r is Ok <==> model::role_of(storage@, address@) == Some(required),
        r is Err ==> r == Err::<(), Error>(Error::NotAuthorized),
{
    match get_role(storage, address) {
        Some(held) => if held == required {
            Ok(())
        } else {
            Err(Error::NotAuthorized)
        },
        None => Err(Error::NotAuthorized),
    }
}

/// Succeeds exactly when `address` holds one of the roles in `allowed`.
pub fn require_any_of(storage: &Storage, address: &Address, allowed: &[Role]) -> (r: Result<
    (),
    Error,
>)
    requires
        storage.wf(),
    ensures
        r is Ok <==> (model::role_of(storage@, address@) is Some && allowed@.contains(
            model::role_of(storage@, address@)->0,
        )),
        r is Err ==> r == Err::<(), Error>(Error::NotAuthorized),
{
    match get_role(storage, address) {
        Some(held) => {
            let mut i: usize = 0;
            while i < allowed.len()
                invariant
                    i <= allowed@.len(),
                    model::role_of(storage@, address@) == Some(held),
                    forall|j: int| 0 <= j < i ==> allowed@[j] != held,
                decreases allowed@.len() - i,
            {
                if allowed[i] == held {
                    assert(allowed@[i as int] == held);
                    return Ok(());
                }
                i = i + 1;
            }
            Err(Error::NotAuthorized)
        },
        None => Err(Error::NotAuthorized),
    }
}

/// Succeeds exactly when `address` is a SuperAdmin or an Admin.
pub fn require_admin_or_above(storage: &Storage, address: &Address) -> (r: Result<(), Error>)
    requires
        storage.wf(),
    ensures
        r is Ok <==> is_admin_or_above(storage@, address@),
        r is Err ==> r == Err::<(), Error>(Error::NotAuthorized),
{
    let allowed = [Role::SuperAdmin, Role::Admin];
    let r = require_any_of(storage, address, allowed.as_slice());
    proof {
        assert(allowed@ =~= seq![Role::SuperAdmin, Role::Admin]);
        if model::role_of(storage@, address@) is Some {
            let held = model::role_of(storage@, address@)->0;
            if held == Role::SuperAdmin {
                assert(allowed@[0] == held);
            }
            if held == Role::Admin {
                assert(allowed@[1] == held);
            }
        }
    }
    r
}

/// Succeeds exactly when `address` is an Oracle.
pub fn require_oracle(storage: &Storage, address: &Address) -> (r: Result<(), Error>)
    requires
        storage.wf(),
    ensures
        r is Ok <==> model::role_of(storage@, address@) == Some(Role::Oracle),
        r is Err ==> r == Err::<(), Error>(Error::NotAuthorized),
{
    require_role(storage, address, Role::Oracle)
}

/// Succeeds exactly when `address` may register projects: a SuperAdmin, an
/// Admin or a ProjectManager.
pub fn require_can_register(storage: &Storage, address: &Address) -> (r: Result<(), Error>)
    requires
        storage.wf(),
    ensures
        r is Ok <==> can_register(storage@, address@),
        r is Err ==> r == Err::<(), Error>(Error::NotAuthorized),
{
    let allowed = [Role::SuperAdmin, Role::Admin, Role::ProjectManager];
    let r = require_any_of(storage, address, allowed.as_slice());
    proof {
        assert(allowed@ =~= seq![Role::SuperAdmin, Role::Admin, Role::ProjectManager]);
        if model::role_of(storage@, address@) is Some {
            let held = model::role_of(storage@, address@)->0;
            if held == Role::SuperAdmin {
                assert(allowed@[0] == held);
            }
            if held == Role::Admin {
                assert(allowed@[1] == held);
            }
            if held == Role::ProjectManager {
                assert(allowed@[2] == held);
            }
        }
    }
    r
}

/// The role held by `address`, if any.
pub fn role_of(storage: &Storage, address: &Address) -> (r: Option<Role>)
    requires
        storage.wf(),
    ensures
        r == model::role_of(storage@, address@),
{
    get_role(storage, address)
}

/// Whether `address` holds `role`.
pub fn has_role(storage: &Storage, address: &Address, role: Role) -> (r: bool)
    requires
        storage.wf(),
    ensures
        r == (model::role_of(storage@, address@) == Some(role)),
{
    get_role(storage, address) == Some(role)
}

} // verus!
