//! The property registry: registration, metadata and status edits, and the
//! property read.

use vstd::prelude::*;

use crate::lookup::find_property;
use crate::lookup::lemma_property_at_first_match;
use crate::lookup::lemma_property_no_match;
use crate::lookup::lemma_property_push;
use crate::lookup::lemma_property_update;
use crate::lookup::property_in;
use crate::lookup::role_lookup;
use crate::state::Core;
use crate::table::sum_for;
use crate::types::Error;
use crate::types::Property;
use crate::types::PropertyId;
use crate::types::PropertyMetadata;
use crate::types::PropertyStatus;
use crate::types::Role;
use crate::types::UserId;

verus! {

/// Do two metadata values carry the same text?
pub open spec fn metadata_eq(a: PropertyMetadata, b: PropertyMetadata) -> bool {
    a.location@ == b.location@ && a.description@ == b.description@
}

/// Do two property values carry the same content?
pub open spec fn property_eq(a: Property, b: Property) -> bool {
    &&& a.id == b.id
    &&& a.name@ == b.name@
    &&& a.total_shares == b.total_shares
    &&& a.shares_available == b.shares_available
    &&& metadata_eq(a.metadata, b.metadata)
    &&& a.status == b.status
}

impl Core {
    /// Registers a new property under the next free id, with its whole
    /// supply still available and status `Active`. Always succeeds; a zero
    /// total is a degenerate but legal property. Returns the new record.
    pub fn register_property(
        &mut self,
        name: String,
        total_shares: u64,
        metadata: PropertyMetadata,
    ) -> (r: Property)
        requires
            old(self).wf(),
            old(self).next_property_id < u64::MAX,
        ensures
            final(self).wf(),
            r.id == old(self).next_property_id,
            r.name@ == name@,
            r.total_shares == total_shares,
            r.shares_available == total_shares,
            metadata_eq(r.metadata, metadata),
            r.status == PropertyStatus::Active,
            final(self).next_property_id == old(self).next_property_id + 1,
            final(self).spec_property(r.id) == Some(
                Property {
                    id: r.id,
                    name,
                    total_shares,
                    shares_available: total_shares,
                    metadata,
                    status: PropertyStatus::Active,
                },
            ),
            forall|pid: PropertyId|
                pid != r.id ==> #[trigger] final(self).spec_property(pid) == old(
                    self,
                ).spec_property(pid),
            *final(self) == (Core {
                properties: final(self).properties,
                next_property_id: final(self).next_property_id,
                ..*old(self)
            }),
    {
        let ghost pre = *self;
        let id = self.next_property_id;
        self.next_property_id = id + 1;
        let stored = Property {
            id,
            name,
            total_shares,
            shares_available: total_shares,
            metadata,
            status: PropertyStatus::Active,
        };
        let r = stored.clone();
        proof {
            assert(forall|j: int|
                0 <= j < pre.properties@.len() ==> (#[trigger] pre.properties@[j]).id != id);
        }
        self.properties.push(stored);
        proof {
            lemma_property_no_match(pre.properties@, id);
            assert forall|pid: PropertyId|
                #[trigger] property_in(self.properties@, pid) == if pid == id {
                    Some(stored)
                } else {
                    property_in(pre.properties@, pid)
                } by {
                lemma_property_push(pre.properties@, stored, pid);
            }
            assert forall|pid: PropertyId|
                #[trigger] sum_for(self.ownership@, pid) == match property_in(
                    self.properties@,
                    pid,
                ) {
                    Some(p) => p.total_shares - p.shares_available,
                    None => 0,
                } by {
                assert(sum_for(self.ownership@, pid) == sum_for(pre.ownership@, pid));
                if pid == id {
                    assert(property_in(pre.properties@, pid) == None::<Property>);
                }
            }
        }
        r
    }

    /// Replaces the metadata of property `pid`. An unknown id is reported
    /// as `NotFound` whoever asks; a registered one may only be edited by an
    /// `Admin` actor. On any failure the state is untouched.
    pub fn update_property_metadata(
        &mut self,
        pid: PropertyId,
        metadata: PropertyMetadata,
        actor: UserId,
    ) -> (r: Result<(), Error>)
        requires
            old(self).wf(),
        ensures
            final(self).wf(),
            r is Ok <==> old(self).has_property(pid) && old(self).role_of(actor) == Role::Admin,
            !old(self).has_property(pid) ==> r == Err::<(), Error>(Error::NotFound),
            old(self).has_property(pid) && old(self).role_of(actor) != Role::Admin ==> r
                == Err::<(), Error>(Error::Unauthorized),
            r is Err ==> *final(self) == *old(self),
            r is Ok ==> final(self).spec_property(pid) == Some(
                (Property { metadata, ..old(self).spec_property(pid)->Some_0 }),
            ),
            r is Ok ==> forall|p: PropertyId|
                p != pid ==> #[trigger] final(self).spec_property(p) == old(self).spec_property(p),
            *final(self) == (Core { properties: final(self).properties, ..*old(self) }),
    {
        let ghost pre = *self;
        match find_property(&self.properties, pid) {
            None => {
                proof {
                    lemma_property_no_match(self.properties@, pid);
                }
                Err(Error::NotFound)
            },
            Some(i) => {
                if !matches!(role_lookup(&self.roles, actor), Role::Admin) {
                    proof {
                        lemma_property_at_first_match(self.properties@, i as int);
                    }
                    return Err(Error::Unauthorized);
                }
                proof {
                    lemma_property_at_first_match(self.properties@, i as int);
                }
                let mut p = self.properties.remove(i);
                p.metadata = metadata;
                self.properties.insert(i, p);
                proof {
                    let q = self.properties@[i as int];
                    assert(self.properties@ =~= pre.properties@.update(i as int, q));
                    assert forall|p2: PropertyId|
                        #[trigger] property_in(self.properties@, p2) == if p2 == pid {
                            Some(q)
                        } else {
                            property_in(pre.properties@, p2)
                        } by {
                        lemma_property_update(pre.properties@, i as int, q, p2);
                    }
                    assert forall|p2: PropertyId|
                        #[trigger] sum_for(self.ownership@, p2) == match property_in(
                            self.properties@,
                            p2,
                        ) {
                            Some(p3) => p3.total_shares - p3.shares_available,
                            None => 0,
                        } by {
                        assert(sum_for(self.ownership@, p2) == sum_for(pre.ownership@, p2));
                    }
                }
                Ok(())
            },
        }
    }

    /// Replaces the status of property `pid`. An unknown id is reported as
    /// `NotFound` whoever asks; a registered one may only be edited by an
    /// `Admin` actor. On any failure the state is untouched.
    pub fn update_property_status(
        &mut self,
        pid: PropertyId,
        status: PropertyStatus,
        actor: UserId,
    ) -> (r: Result<(), Error>)
        requires
            old(self).wf(),
        ensures
            final(self).wf(),
            r is Ok <==> old(self).has_property(pid) && old(self).role_of(actor) == Role::Admin,
            !old(self).has_property(pid) ==> r == Err::<(), Error>(Error::NotFound),
            old(self).has_property(pid) && old(self).role_of(actor) != Role::Admin ==> r
                == Err::<(), Error>(Error::Unauthorized),
            r is Err ==> *final(self) == *old(self),
            r is Ok ==> final(self).spec_property(pid) == Some(
                (Property { status, ..old(self).spec_property(pid)->Some_0 }),
            ),
            r is Ok ==> forall|p: PropertyId|
                p != pid ==> #[trigger] final(self).spec_property(p) == old(self).spec_property(p),
            *final(self) == (Core { properties: final(self).properties, ..*old(self) }),
    {
        let ghost pre = *self;
        match find_property(&self.properties, pid) {
            None => {
                proof {
                    lemma_property_no_match(self.properties@, pid);
                }
                Err(Error::NotFound)
            },
            Some(i) => {
                if !matches!(role_lookup(&self.roles, actor), Role::Admin) {
                    proof {
                        lemma_property_at_first_match(self.properties@, i as int);
                    }
                    return Err(Error::Unauthorized);
                }
                proof {
                    lemma_property_at_first_match(self.properties@, i as int);
                }
                let mut p = self.properties.remove(i);
                p.status = status;
                self.properties.insert(i, p);
                proof {
                    let q = self.properties@[i as int];
                    assert(self.properties@ =~= pre.properties@.update(i as int, q));
                    assert forall|p2: PropertyId|
                        #[trigger] property_in(self.properties@, p2) == if p2 == pid {
                            Some(q)
                        } else {
                            property_in(pre.properties@, p2)
                        } by {
                        lemma_property_update(pre.properties@, i as int, q, p2);
                    }
                    assert forall|p2: PropertyId|
                        #[trigger] sum_for(self.ownership@, p2) == match property_in(
                            self.properties@,
                            p2,
                        ) {
                            Some(p3) => p3.total_shares - p3.shares_available,
                            None => 0,
                        } by {
                        assert(sum_for(self.ownership@, p2) == sum_for(pre.ownership@, p2));
                    }
                }
                Ok(())
            },
        }
    }

    /// Reads the property registered under `pid`, if any.
    pub fn get_property(&self, pid: PropertyId) -> (r: Option<Property>)
        ensures
            r is Some <==> self.has_property(pid),
            r is Some ==> property_eq(r->Some_0, self.spec_property(pid)->Some_0),
    {
        match find_property(&self.properties, pid) {
            None => {
                proof {
                    lemma_property_no_match(self.properties@, pid);
                }
                None
            },
            Some(i) => {
                proof {
                    lemma_property_at_first_match(self.properties@, i as int);
                }
                Some(self.properties[i].clone())
            },
        }
    }
}

} // verus!
