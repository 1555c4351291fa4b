use vstd::prelude::*;
use crate::model::{copy_text, Tag, TagMap};

verus! {

/// The value that the last tag with key `key` carries, or `None` where no
/// tag has that key. A matching tag whose value is absent counts too.
pub open spec fn last_value(tags: Seq<Tag>, key: Seq<char>) -> Option<String>
    decreases tags.len(),
{
    if tags.len() == 0 {
        None
    } else {
        let t = tags.last();
        if t.key is Some && t.key->0@ == key {
            t.value
        } else {
            last_value(tags.drop_last(), key)
        }
    }
}

/// The projection of a tag list onto the three recognised keys.
pub open spec fn tag_map_of(tags: Option<Seq<Tag>>) -> TagMap {
    let s = match tags {
        Some(s) => s,
        None => Seq::empty(),
    };
    TagMap {
        environment: last_value(s, "Environment"@),
        name: last_value(s, "Name"@),
        project: last_value(s, "Project"@),
    }
}

/// Whether the tag's key is present and equals `key`.
fn key_is(t: &Tag, key: &String) -> (r: bool)
    ensures
        r == (t.key is Some && t.key->0@ == key@),
{
    match &t.key {
        Some(k) => *k == *key,
        None => false,
    }
}

/// Projects a raw tag list onto the `Name`, `Project` and `Environment` slots;
/// on a repeated key the last tag wins, and other keys are ignored.
pub fn map_tags(tags: Option<Vec<Tag>>) -> (r: TagMap)
    ensures
        r == tag_map_of(
            match tags {
                Some(v) => Some(v@),
                None => None,
            },
        ),
{
    match tags {
        Some(v) => project_tags(&v),
        None => {
            let empty: Vec<Tag> = Vec::new();
            let r = project_tags(&empty);
            assert(empty@ == Seq::<Tag>::empty());
            r
        },
    }
}

/// The projection of a present tag list.
pub(crate) fn project_tags(list: &Vec<Tag>) -> (r: TagMap)
    ensures
        r == tag_map_of(Some(list@)),
{
    let mut tag_map = TagMap { project: None, environment: None, name: None };
    let name_key = "Name".to_owned();
    let project_key = "Project".to_owned();
    let environment_key = "Environment".to_owned();
    let mut i: usize = 0;
    while i < list.len()
        invariant
            i <= list@.len(),
            name_key@ == "Name"@,
            project_key@ == "Project"@,
            environment_key@ == "Environment"@,
            tag_map.name == last_value(list@.take(i as int), "Name"@),
            tag_map.project == last_value(list@.take(i as int), "Project"@),
            tag_map.environment == last_value(list@.take(i as int), "Environment"@),
        decreases list@.len() - i,
    {
        let t = &list[i];
        assert(list@.take(i as int + 1).drop_last() == list@.take(i as int));
        if key_is(t, &name_key) {
            tag_map.name = copy_text(&t.value);
        }
        if key_is(t, &project_key) {
            tag_map.project = copy_text(&t.value);
        }
        if key_is(t, &environment_key) {
            tag_map.environment = copy_text(&t.value);
        }
        i = i + 1;
    }
    assert(list@.take(list@.len() as int) == list@);
    tag_map
}

} // verus!
