//! The authorization gate: role and KYC assignments, read by the other
//! components, and the one-time admin bootstrap.

use vstd::prelude::*;

use crate::lookup::assign_kyc;
use crate::lookup::assign_role;
use crate::lookup::kyc_lookup;
use crate::lookup::role_lookup;
use crate::state::Core;
use crate::types::Error;
use crate::types::Role;
use crate::types::UserId;

verus! {

impl Core {
    /// The role resolved for `user`; identities without an assignment are
    /// plain users.
    pub fn get_role(&self, user: UserId) -> (r: Role)
        ensures
            r == self.role_of(user),
    {
        role_lookup(&self.roles, user)
    }

    /// The KYC flag resolved for `user`; identities without a flag count as
    /// unverified.
    pub fn is_kyc_verified(&self, user: UserId) -> (r: bool)
        ensures
            r == self.kyc_of(user),
    {
        kyc_lookup(&self.kyc, user)
    }

    /// Sets the KYC flag of `user`. Only an `Admin` actor may do so; on
    /// failure the state is untouched.
    pub fn set_kyc_status(&mut self, user: UserId, status: bool, actor: UserId) -> (r: Result<
        (),
        Error,
    >)
        requires
            old(self).wf(),
        ensures
            final(self).wf(),
            r is Ok <==> old(self).role_of(actor) == Role::Admin,
            r is Err ==> r == Err::<(), Error>(Error::Unauthorized) && *final(self) == *old(self),
            r is Ok ==> final(self).kyc_of(user) == status,
            r is Ok ==> forall|u: UserId|
                u != user ==> #[trigger] final(self).kyc_of(u) == old(self).kyc_of(u),
            *final(self) == (Core { kyc: final(self).kyc, ..*old(self) }),
    {
        if !matches!(role_lookup(&self.roles, actor), Role::Admin) {
            return Err(Error::Unauthorized);
        }
        assign_kyc(&mut self.kyc, user, status);
        Ok(())
    }

    /// Assigns `role` to `user`. Only an `Admin` actor may do so; on failure
    /// the state is untouched.
    pub fn set_role(&mut self, user: UserId, role: Role, actor: UserId) -> (r: Result<(), Error>)
        requires
            old(self).wf(),
        ensures
            final(self).wf(),
            r is Ok <==> old(self).role_of(actor) == Role::Admin,
            r is Err ==> r == Err::<(), Error>(Error::Unauthorized) && *final(self) == *old(self),
            r is Ok ==> final(self).role_of(user) == role,
            r is Ok ==> forall|u: UserId|
                u != user ==> #[trigger] final(self).role_of(u) == old(self).role_of(u),
            *final(self) == (Core { roles: final(self).roles, ..*old(self) }),
    {
        if !matches!(role_lookup(&self.roles, actor), Role::Admin) {
            return Err(Error::Unauthorized);
        }
        assign_role(&mut self.roles, user, role);
        Ok(())
    }

    /// Makes `admin` the first administrator. May happen once: a second
    /// bootstrap is refused and changes nothing.
    pub fn bootstrap_admin(&mut self, admin: UserId) -> (r: Result<(), Error>)
        requires
            old(self).wf(),
        ensures
            final(self).wf(),
            r is Ok <==> !old(self).bootstrapped,
            r is Err ==> r == Err::<(), Error>(Error::AlreadyBootstrapped) && *final(self) == *old(
                self,
            ),
            r is Ok ==> final(self).role_of(admin) == Role::Admin,
            r is Ok ==> forall|u: UserId|
                u != admin ==> #[trigger] final(self).role_of(u) == old(self).role_of(u),
            final(self).bootstrapped,
            *final(self) == (Core {
                roles: final(self).roles,
                bootstrapped: final(self).bootstrapped,
                ..*old(self)
            }),
    {
        if self.bootstrapped {
            return Err(Error::AlreadyBootstrapped);
        }
        assign_role(&mut self.roles, admin, Role::Admin);
        self.bootstrapped = true;
        Ok(())
    }
}

} // verus!
