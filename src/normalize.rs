use vstd::prelude::*;
use crate::model::{copy_text, Details, RawInstance, Reservation, Tag};
use crate::tags::{map_tags, project_tags, tag_map_of};

verus! {

/// The tag list of a raw instance, as a sequence.
pub open spec fn tags_view(tags: Option<Vec<Tag>>) -> Option<Seq<Tag>> {
    match tags {
        Some(v) => Some(v@),
        None => None,
    }
}

/// The record that one raw instance fetched from `region` becomes.
pub open spec fn details_of(i: RawInstance, region: String) -> Details {
    let tm = tag_map_of(tags_view(i.tags));
    Details {
        environment: tm.environment,
        instance_id: i.instance_id,
        instance_type: i.instance_type,
        key_name: i.key_name,
        launch_time: i.launch_time,
        name: tm.name,
        project: tm.project,
        region: region,
        source_dest_check: i.source_dest_check,
        state: match i.state {
            Some(s) => s.name,
            None => None,
        },
    }
}

/// The records of a sequence of raw instances, one each, in order.
pub open spec fn instances_details(insts: Seq<RawInstance>, region: String) -> Seq<Details> {
    insts.map_values(|i: RawInstance| details_of(i, region))
}

/// The records of one reservation: none where its instance list is absent.
pub open spec fn reservation_details(r: Reservation, region: String) -> Seq<Details> {
    match r.instances {
        Some(v) => instances_details(v@, region),
        None => Seq::empty(),
    }
}

/// The records of a sequence of reservations, concatenated in order.
pub open spec fn reservations_details(rs: Seq<Reservation>, region: String) -> Seq<Details>
    decreases rs.len(),
{
    if rs.len() == 0 {
        Seq::empty()
    } else {
        reservations_details(rs.drop_last(), region) + reservation_details(rs.last(), region)
    }
}

/// What a page's reservation list flattens to: absent stays absent.
pub open spec fn page_details(rs: Option<Vec<Reservation>>, region: String) -> Option<Seq<Details>> {
    match rs {
        Some(v) => Some(reservations_details(v@, region)),
        None => None,
    }
}

/// Maps one raw instance to its record, stamped with `region`.
pub fn normalize_instance(i: &RawInstance, region: &String) -> (r: Details)
    ensures
        r == details_of(*i, *region),
{
    let tag_map = match &i.tags {
        Some(v) => project_tags(v),
        None => map_tags(None),
    };
    Details {
        environment: tag_map.environment,
        instance_id: copy_text(&i.instance_id),
        instance_type: copy_text(&i.instance_type),
        key_name: copy_text(&i.key_name),
        launch_time: copy_text(&i.launch_time),
        name: tag_map.name,
        project: tag_map.project,
        region: region.clone(),
        source_dest_check: i.source_dest_check,
        state: match &i.state {
            Some(s) => copy_text(&s.name),
            None => None,
        },
    }
}

/// Maps each instance of an optional list to its record; an absent list
/// stays absent.
pub fn instance_map(instances: Option<Vec<RawInstance>>, region: &String) -> (r: Option<
    Vec<Details>,
>)
    ensures
        match instances {
            Some(v) => r is Some && r->0@ == instances_details(v@, *region),
            None => r is None,
        },
{
    match instances {
        Some(v) => Some(normalize_all(&v, region)),
        None => None,
    }
}

/// The records of a present instance list, one per instance, in order.
fn normalize_all(v: &Vec<RawInstance>, region: &String) -> (r: Vec<Details>)
    ensures
        r@ == instances_details(v@, *region),
{
    let mut out: Vec<Details> = Vec::new();
    let mut i: usize = 0;
    while i < v.len()
        invariant
            i <= v@.len(),
            out@ == instances_details(v@.take(i as int), *region),
        decreases v@.len() - i,
    {
        let d = normalize_instance(&v[i], region);
        out.push(d);
        i = i + 1;
        assert(out@ =~= instances_details(v@.take(i as int), *region));
    }
    assert(v@.take(v@.len() as int) == v@);
    out
}

/// Flattens a page's reservations into records, in order. An absent list
/// gives `None`; a present one gives `Some`, empty where no reservation holds
/// an instance.
pub fn process_reservations(reservations: Option<Vec<Reservation>>, region: &String) -> (r: Option<
    Vec<Details>,
>)
    ensures
        r is None <==> reservations is None,
        r is Some ==> r->0@ == reservations_details(reservations->0@, *region),
{
    match reservations {
        Some(rs) => {
            let mut out: Vec<Details> = Vec::new();
            let mut k: usize = 0;
            while k < rs.len()
                invariant
                    k <= rs@.len(),
                    out@ == reservations_details(rs@.take(k as int), *region),
                decreases rs@.len() - k,
            {
                match &rs[k].instances {
                    Some(v) => {
                        let mut part = normalize_all(v, region);
                        out.append(&mut part);
                    },
                    None => {},
                }
                assert(rs@.take(k as int + 1).drop_last() == rs@.take(k as int));
                k = k + 1;
                assert(out@ =~= reservations_details(rs@.take(k as int), *region));
            }
            assert(rs@.take(rs@.len() as int) == rs@);
            Some(out)
        },
        None => None,
    }
}

} // verus!
