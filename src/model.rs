use vstd::prelude::*;

verus! {

/// One key/value tag of a raw instance; either side may be absent.
#[derive(Clone, Debug)]
pub struct Tag {
    pub key: Option<String>,
    pub value: Option<String>,
}

/// The lifecycle state of a raw instance.
#[derive(Clone, Debug)]
pub struct InstanceState {
    pub name: Option<String>,
}

/// One instance as the provider describes it.
#[derive(Clone, Debug)]
pub struct RawInstance {
    pub instance_id: Option<String>,
    pub instance_type: Option<String>,
    pub key_name: Option<String>,
    pub launch_time: Option<String>,
    pub source_dest_check: Option<bool>,
    pub state: Option<InstanceState>,
    pub tags: Option<Vec<Tag>>,
}

/// A group of instances launched together.
#[derive(Clone, Debug)]
pub struct Reservation {
    pub instances: Option<Vec<RawInstance>>,
}

/// One page of a describe-instances answer.
#[derive(Clone, Debug)]
pub struct PageResult {
    pub reservations: Option<Vec<Reservation>>,
    pub next_token: Option<String>,
}

/// The three recognised tags of an instance.
#[derive(Clone, Debug)]
pub struct TagMap {
    pub environment: Option<String>,
    pub name: Option<String>,
    pub project: Option<String>,
}

/// The flat record that the collection produces for each instance.
#[derive(Clone, Debug)]
pub struct Details {
    pub environment: Option<String>,
    pub instance_id: Option<String>,
    pub instance_type: Option<String>,
    pub key_name: Option<String>,
    pub launch_time: Option<String>,
    pub name: Option<String>,
    pub project: Option<String>,
    pub region: String,
    pub source_dest_check: Option<bool>,
    pub state: Option<String>,
}

/// A copy of an optional text field.
pub(crate) fn copy_text(o: &Option<String>) -> (r: Option<String>)
    ensures
        r == *o,
{
    match o {
        Some(s) => Some(s.clone()),
        None => None,
    }
}

} // verus!
