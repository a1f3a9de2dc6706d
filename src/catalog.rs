use vstd::prelude::*;
use std::collections::HashMap;
use crate::graph::JobTasks;
use crate::job::{JobData, JobDataView, JobOnFail};
use crate::task::JobID;

verus! {

broadcast use vstd::std_specs::hash::group_hash_axioms;

impl JobData {
    /// A template named `name`, identified by the hash of the name.
    pub fn new(name: &'static str, on_fail: JobOnFail, tasks: JobTasks) -> (r: Self)
        ensures
            r@ == (JobDataView { id: JobID::from_str_spec(name), name, on_fail, tasks: tasks@ }),
    {
        JobData { id: JobID::from_str(name), name, on_fail, tasks }
    }
}

/// The registered job templates, by identity.
#[derive(Debug)]
pub struct JobCatalog {
    data: HashMap<u32, JobData>,
}

impl View for JobCatalog {
    type V = Map<JobID, JobDataView>;

    closed spec fn view(&self) -> Map<JobID, JobDataView> {
        Map::new(
            |id: JobID| self.data@.contains_key(id.0),
            |id: JobID| self.data@[id.0]@,
        )
    }
}

impl JobCatalog {
    /// Every template is stored under its own identity.
    pub closed spec fn wf(&self) -> bool {
        forall|k: u32| #[trigger] self.data@.contains_key(k) ==> self.data@[k].id.0 == k
    }

    pub fn init() -> (r: Self)
        ensures
            r.wf(),
            r@ == Map::<JobID, JobDataView>::empty(),
    {
        let r = JobCatalog { data: HashMap::new() };
        assert(r@ =~= Map::<JobID, JobDataView>::empty());
        r
    }

    /// Registers `jobdata` under its identity; a template already there is replaced.
    pub fn add(&mut self, jobdata: JobData)
        requires
            old(self).wf(),
        ensures
            final(self).wf(),
            final(self)@ == old(self)@.insert(jobdata.id, jobdata@),
    {
        let ghost v = jobdata@;
        let ghost id = jobdata.id;
        self.data.insert(jobdata.id.0, jobdata);
        assert(self@ =~= old(self)@.insert(id, v));
    }

    /// Removes every template.
    pub fn clear(&mut self)
        ensures
            final(self).wf(),
            final(self)@ == Map::<JobID, JobDataView>::empty(),
    {
        self.data.clear();
        assert(self@ =~= Map::<JobID, JobDataView>::empty());
    }

    /// The template registered under `id`, if any.
    pub fn get(&self, id: JobID) -> (r: Option<&JobData>)
        requires
            self.wf(),
        ensures
            match r {
                Some(jd) => self@.contains_key(id) && jd@ == self@[id],
                None => !self@.contains_key(id),
            },
    {
        self.data.get(&id.0)
    }

    /// The template registered under the identity of `name`, if any.
    pub fn get_by_name(&self, name: &str) -> (r: Option<&JobData>)
        requires
            self.wf(),
        ensures
            match r {
                Some(jd) => self@.contains_key(JobID::from_str_spec(name))
                    && jd@ == self@[JobID::from_str_spec(name)],
                None => !self@.contains_key(JobID::from_str_spec(name)),
            },
    {
        self.get(JobID::from_str(name))
    }
}

} // verus!
