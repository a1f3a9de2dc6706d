use vstd::prelude::*;
use std::collections::hash_map::DefaultHasher;
use std::hash::Hasher;
use vstd::string::StringSliceAdditionalSpecFns;
use vstd::std_specs::hash::DefaultHasherAdditionalSpecFns;
use crate::task::JobID;

verus! {

/// The numeric identity of a name: the low 32 bits of std's `DefaultHasher` digest of the
/// name's UTF-8 bytes, written in one piece. `DefaultHasher::new` starts from fixed keys, so
/// the same name gives the same id in every run of one build; distinct names may collide.
pub open spec fn name_hash(bytes: Seq<u8>) -> u32 {
    DefaultHasher::spec_finish(seq![bytes]) as u32
}

impl JobID {
    pub open spec fn from_str_spec(job_string: &str) -> JobID {
        JobID(name_hash(job_string.spec_bytes()))
    }

    /// The identity of a job authored by name.
    pub fn from_str(job_string: &str) -> (r: JobID)
        ensures
            r == JobID::from_str_spec(job_string),
    {
        let mut s = DefaultHasher::new();
        s.write(job_string.as_bytes());
        assert(s@ =~= seq![job_string.spec_bytes()]);
        JobID(s.finish() as u32)
    }
}

} // verus!
