//! The service catalog: a two-level hierarchy of sections and services.
//!
//! [`Catalog`] is the catalog's in-memory form, with the same behaviour the
//! relational store guarantees: ids are assigned serially starting at one,
//! a service must reference an existing section, and a listing pairs each
//! section, in order, with its services in insertion order. The ghost
//! [`CatalogModel`] states that behaviour mathematically; every operation's
//! contract is an equation over it.
//!
//! Timestamps are plain values — microseconds handed in by the caller, who
//! owns the clock.

use vstd::prelude::*;

use crate::errors::StoreError;
use vstd::string::StringExecFns;

verus! {

/// A named grouping of services, as persisted.
#[derive(Debug)]
pub struct ServiceSection {
    /// Surrogate key, assigned by the store on creation.
    pub id: i32,
    pub title: String,
    pub description: String,
    /// Creation time in microseconds, assigned by the store at insert time.
    pub created_at: i64,
}

/// One service, belonging to exactly one section.
#[derive(Debug)]
pub struct Service {
    /// Surrogate key, assigned by the store on creation.
    pub id: i32,
    /// The owning section; always references an existing section.
    pub section_id: i32,
    pub name: String,
    pub description: String,
    /// Creation time in microseconds, assigned by the store at insert time.
    pub created_at: i64,
}

/// The mathematical value of a section record.
pub ghost struct SectionModel {
    pub id: int,
    pub title: Seq<char>,
    pub description: Seq<char>,
    pub created_at: int,
}

/// The mathematical value of a service record.
pub ghost struct ServiceModel {
    pub id: int,
    pub section_id: int,
    pub name: Seq<char>,
    pub description: Seq<char>,
    pub created_at: int,
}

impl View for ServiceSection {
    type V = SectionModel;

    open spec fn view(&self) -> SectionModel {
        SectionModel {
            id: self.id as int,
            title: self.title@,
            description: self.description@,
            created_at: self.created_at as int,
        }
    }
}

impl View for Service {
    type V = ServiceModel;

    open spec fn view(&self) -> ServiceModel {
        ServiceModel {
            id: self.id as int,
            section_id: self.section_id as int,
            name: self.name@,
            description: self.description@,
            created_at: self.created_at as int,
        }
    }
}

/// The mathematical state of the catalog.
pub ghost struct CatalogModel {
    pub sections: Seq<SectionModel>,
    pub services: Seq<ServiceModel>,
}

impl CatalogModel {
    /// The catalog's invariant: ids run serially from one in both tables,
    /// and every service references an existing section.
    pub open spec fn wf(self) -> bool {
        &&& forall|i: int|
            0 <= i < self.sections.len() ==> (#[trigger] self.sections[i]).id == i + 1
        &&& forall|i: int|
            0 <= i < self.services.len() ==> (#[trigger] self.services[i]).id == i + 1
        &&& forall|i: int|
            0 <= i < self.services.len() ==> 1 <= (#[trigger] self.services[i]).section_id
                <= self.sections.len()
    }

    /// True when a section with this id exists.
    pub open spec fn section_exists(self, section_id: int) -> bool {
        1 <= section_id <= self.sections.len()
    }

    /// Creating a section appends a record with the next serial id and the
    /// store-assigned timestamp, and touches nothing else.
    pub open spec fn create_section(self, title: Seq<char>, description: Seq<char>, now: int) -> (
        CatalogModel,
        SectionModel,
    ) {
        let sec = SectionModel {
            id: self.sections.len() + 1 as int,
            title,
            description,
            created_at: now,
        };
        (CatalogModel { sections: self.sections.push(sec), services: self.services }, sec)
    }

    /// Creating a service appends a record referencing an existing
    /// section; a missing section changes nothing and yields no record.
    pub open spec fn create_service(
        self,
        section_id: int,
        name: Seq<char>,
        description: Seq<char>,
        now: int,
    ) -> (CatalogModel, Option<ServiceModel>) {
        if self.section_exists(section_id) {
            let svc = ServiceModel {
                id: self.services.len() + 1 as int,
                section_id,
                name,
                description,
                created_at: now,
            };
            (
                CatalogModel { sections: self.sections, services: self.services.push(svc) },
                Some(svc),
            )
        } else {
            (self, None)
        }
    }

    /// The services of one section, in insertion order.
    pub open spec fn services_of(self, section_id: int) -> Seq<ServiceModel> {
        self.services.filter(|s: ServiceModel| s.section_id == section_id)
    }

    /// The full listing: each section, in order, paired with its services.
    pub open spec fn listing(self) -> Seq<(SectionModel, Seq<ServiceModel>)> {
        Seq::new(
            self.sections.len(),
            |i: int| (self.sections[i], self.services_of(self.sections[i].id)),
        )
    }
}

/// The catalog's in-memory form.
pub struct Catalog {
    pub sections: Vec<ServiceSection>,
    pub services: Vec<Service>,
}

impl View for Catalog {
    type V = CatalogModel;

    open spec fn view(&self) -> CatalogModel {
        CatalogModel {
            sections: Seq::new(self.sections@.len(), |i: int| self.sections@[i]@),
            services: Seq::new(self.services@.len(), |i: int| self.services@[i]@),
        }
    }
}

impl Catalog {
    /// An empty catalog.
    pub fn new() -> (c: Catalog)
        ensures
            c@.wf(),
            c@.sections.len() == 0,
            c@.services.len() == 0,
    {
        Catalog { sections: Vec::new(), services: Vec::new() }
    }

    /// Inserts a section; the returned record reflects the store-assigned
    /// id and timestamp, never caller-supplied values.
    pub fn create_section(&mut self, title: &str, description: &str, now: i64) -> (r:
        ServiceSection)
        requires
            old(self)@.wf(),
            old(self)@.sections.len() < i32::MAX as int,
        ensures
            final (self)@.wf(),
            (final (self)@, r@) == old(self)@.create_section(title@, description@, now as int),
    {
        let id: i32 = (self.sections.len() as i32) + 1;
        let record = ServiceSection {
            id,
            title: String::from_str(title),
            description: String::from_str(description),
            created_at: now,
        };
        let r = ServiceSection {
            id,
            title: String::from_str(title),
            description: String::from_str(description),
            created_at: now,
        };
        self.sections.push(record);
        proof {
            let (m1, sec) = old(self)@.create_section(title@, description@, now as int);
            assert(self@.sections =~= m1.sections);
            assert(self@.services =~= m1.services);
            assert(r@ == sec);
        }
        r
    }

    /// Inserts a service under an existing section; a missing section is a
    /// referential failure, surfaced as a failed statement, and inserts
    /// nothing.
    pub fn create_service(&mut self, section_id: i32, name: &str, description: &str, now: i64)
        -> (r: Result<Service, StoreError>)
        requires
            old(self)@.wf(),
            old(self)@.services.len() < i32::MAX as int,
        ensures
            final (self)@.wf(),
            match r {
                Ok(svc) => {
                    &&& old(self)@.section_exists(section_id as int)
                    &&& (final (self)@, Some(svc@)) == old(self)@.create_service(
                        section_id as int,
                        name@,
                        description@,
                        now as int,
                    )
                },
                Err(e) => {
                    &&& e == StoreError::QueryFailed
                    &&& !old(self)@.section_exists(section_id as int)
                    &&& final (self)@ == old(self)@
                },
            },
    {
        if section_id < 1 || (section_id as usize) > self.sections.len() {
            proof {
                assert(self@.sections =~= old(self)@.sections);
                assert(self@.services =~= old(self)@.services);
            }
            return Err(StoreError::QueryFailed);
        }
        let id: i32 = (self.services.len() as i32) + 1;
        let record = Service {
            id,
            section_id,
            name: String::from_str(name),
            description: String::from_str(description),
            created_at: now,
        };
        let r = Service {
            id,
            section_id,
            name: String::from_str(name),
            description: String::from_str(description),
            created_at: now,
        };
        self.services.push(record);
        proof {
            let (m1, osvc) = old(self)@.create_service(
                section_id as int,
                name@,
                description@,
                now as int,
            );
            assert(self@.sections =~= m1.sections);
            assert(self@.services =~= m1.services);
            assert(osvc == Some(r@));
        }
        Ok(r)
    }

    /// The services of one section, in insertion order.
    fn services_for(&self, section_id: i32) -> (r: Vec<Service>)
        ensures
            seq_view(r@) == self@.services_of(section_id as int),
    {
        let mut out: Vec<Service> = Vec::new();
        let ghost all = self@.services;
        let mut i: usize = 0;
        proof {
            assert(all.take(0) =~= Seq::<ServiceModel>::empty());
            reveal(Seq::filter);
            assert(seq_view(out@) =~= all.take(0).filter(
                |s: ServiceModel| s.section_id == section_id as int,
            ));
        }
        while i < self.services.len()
            invariant
                i <= self.services@.len(),
                all == self@.services,
                all.len() == self.services@.len(),
                seq_view(out@) == all.take(i as int).filter(
                    |s: ServiceModel| s.section_id == section_id as int,
                ),
            decreases self.services@.len() - i,
        {
            let s = &self.services[i];
            let keep = s.section_id == section_id;
            let ghost before = seq_view(out@);
            if keep {
                out.push(
                    Service {
                        id: s.id,
                        section_id: s.section_id,
                        name: s.name.clone(),
                        description: s.description.clone(),
                        created_at: s.created_at,
                    },
                );
            }
            proof {
                let pred = |s: ServiceModel| s.section_id == section_id as int;
                let t1 = all.take(i + 1 as int);
                assert(t1.drop_last() =~= all.take(i as int));
                assert(t1.last() == all[i as int]);
                assert(all[i as int] == self.services@[i as int]@);
                reveal(Seq::filter);
                if keep {
                    assert(seq_view(out@) =~= before.push(self.services@[i as int]@));
                    assert(t1.filter(pred) =~= all.take(i as int).filter(pred).push(
                        all[i as int],
                    ));
                } else {
                    assert(t1.filter(pred) =~= all.take(i as int).filter(pred));
                }
            }
            i = i + 1;
        }
        proof {
            assert(all.take(all.len() as int) =~= all);
        }
        out
    }

    /// The full listing: every section, in order, paired with its services
    /// in insertion order; a section with no services carries an empty
    /// sequence, never an error. One pass over the services is made per
    /// section.
    pub fn list_sections_with_services(&self) -> (r: Vec<(ServiceSection, Vec<Service>)>)
        ensures
            r@.len() == self@.listing().len(),
            forall|i: int|
                0 <= i < r@.len() ==> {
                    &&& ((#[trigger] r@[i]).0@, seq_view(r@[i].1@)) == self@.listing()[i]
                },
    {
        let mut out: Vec<(ServiceSection, Vec<Service>)> = Vec::new();
        let mut i: usize = 0;
        while i < self.sections.len()
            invariant
                i <= self.sections@.len(),
                out@.len() == i,
                forall|j: int|
                    0 <= j < i ==> {
                        &&& ((#[trigger] out@[j]).0@, seq_view(out@[j].1@)) == self@.listing()[j]
                    },
            decreases self.sections@.len() - i,
        {
            let sec = &self.sections[i];
            let services = self.services_for(sec.id);
            let copy = ServiceSection {
                id: sec.id,
                title: sec.title.clone(),
                description: sec.description.clone(),
                created_at: sec.created_at,
            };
            proof {
                assert(copy@ == self@.sections[i as int]);
            }
            out.push((copy, services));
            i = i + 1;
        }
        out
    }
}

/// The mathematical value of a sequence of service records.
pub open spec fn seq_view(ss: Seq<Service>) -> Seq<ServiceModel> {
    Seq::new(ss.len(), |i: int| ss[i]@)
}

/// A filter keeps nothing when nothing satisfies the predicate.
proof fn lemma_filter_none<A>(s: Seq<A>, pred: spec_fn(A) -> bool)
    requires
        forall|i: int| 0 <= i < s.len() ==> !pred(s[i]),
    ensures
        s.filter(pred) == Seq::<A>::empty(),
    decreases s.len(),
{
    reveal(Seq::filter);
    if s.len() > 0 {
        lemma_filter_none(s.drop_last(), pred);
    }
}

/// Read-after-write: creating a section, then a service under its returned
/// id, makes a listing whose entry for that section pairs it with exactly
/// the created service — whatever the catalog held before.
pub proof fn lemma_read_after_write(
    m: CatalogModel,
    title: Seq<char>,
    description: Seq<char>,
    t1: int,
    name: Seq<char>,
    service_description: Seq<char>,
    t2: int,
)
    requires
        m.wf(),
    ensures
        ({
            let (m1, sec) = m.create_section(title, description, t1);
            let (m2, created) = m1.create_service(sec.id, name, service_description, t2);
            &&& created is Some
            &&& 0 <= sec.id - 1 < m2.listing().len()
            &&& m2.listing()[sec.id - 1].0 == sec
            &&& m2.listing()[sec.id - 1].1 == seq![created->0]
        }),
{
    let (m1, sec) = m.create_section(title, description, t1);
    let (m2, created) = m1.create_service(sec.id, name, service_description, t2);
    let svc = created->0;
    let pred = |s: ServiceModel| s.section_id == sec.id;
    assert(forall|i: int| 0 <= i < m.services.len() ==> !pred(#[trigger] m1.services[i]));
    lemma_filter_none(m1.services, pred);
    reveal(Seq::filter);
    assert(m2.services.drop_last() =~= m1.services);
    assert(m2.services.last() == svc);
    assert(m2.services.filter(pred) =~= Seq::<ServiceModel>::empty().push(svc));
    assert(m2.listing()[sec.id - 1].1 =~= seq![svc]);
}

} // verus!
