use vstd::prelude::*;
use crate::model::Details;
use vstd::string::StringExecFns;
use crate::pager::{drive, start, lemma_region_stamped, FetchOutcome};

verus! {

broadcast use vstd::seq_lib::group_seq_properties;

/// The selector that stands for every region of the catalog.
pub const ALL_REGIONS: &'static str = "all";

/// The regions that can be queried, in the order in which they are visited.
pub open spec fn catalog() -> Seq<Seq<char>> {
    seq![
        "ap-east-1"@,
        "ap-northeast-1"@,
        "ap-northeast-2"@,
        "ap-northeast-3"@,
        "ap-south-1"@,
        "ap-southeast-1"@,
        "ap-southeast-2"@,
        "ca-central-1"@,
        "eu-central-1"@,
        "eu-west-1"@,
        "eu-west-2"@,
        "eu-west-3"@,
        "eu-north-1"@,
        "eu-south-1"@,
        "me-south-1"@,
        "sa-east-1"@,
        "us-east-1"@,
        "us-east-2"@,
        "us-west-1"@,
        "us-west-2"@,
        "cn-north-1"@,
        "cn-northwest-1"@,
        "af-south-1"@,
    ]
}

/// Which regions a run covers.
#[derive(Clone, Debug)]
pub enum Selector {
    Single(String),
    All,
}

/// Why a region argument was refused.
#[derive(Clone, Debug)]
pub enum SelectorError {
    UnknownRegion,
}

/// The names joined into one text, with `sep` between each two.
pub open spec fn joined(names: Seq<Seq<char>>, sep: Seq<char>) -> Seq<char>
    decreases names.len(),
{
    if names.len() == 0 {
        Seq::empty()
    } else if names.len() == 1 {
        names[0]
    } else {
        joined(names.drop_last(), sep) + sep + names.last()
    }
}

/// The opening of the message that refuses a region argument.
pub const UNKNOWN_REGION_TEXT: &'static str = "The supplied region does not match any of the available options: ";

/// The separator between the options that the message lists.
pub const OPTION_SEPARATOR: &'static str = ",\n";

impl SelectorError {
    /// A message that lists every valid choice: the catalog in order, then
    /// the sentinel.
    pub fn message(&self) -> (r: String)
        ensures
            r@ == UNKNOWN_REGION_TEXT@ + joined(catalog(), OPTION_SEPARATOR@) + OPTION_SEPARATOR@
                + ALL_REGIONS@,
    {
        let regions = region_list();
        let mut msg = UNKNOWN_REGION_TEXT.to_owned();
        let mut i: usize = 0;
        while i < regions.len()
            invariant
                i <= regions@.len(),
                regions@.len() == catalog().len(),
                forall|j: int| 0 <= j < regions@.len() ==> (#[trigger] regions@[j])@ == catalog()[j],
                msg@ == UNKNOWN_REGION_TEXT@ + joined(catalog().take(i as int), OPTION_SEPARATOR@),
            decreases regions@.len() - i,
        {
            let ghost before = catalog().take(i as int);
            if i > 0 {
                msg.append(OPTION_SEPARATOR);
            }
            msg.append(regions[i]);
            proof {
                let after = catalog().take(i as int + 1);
                assert(after.drop_last() =~= before);
                assert(after.last() == catalog()[i as int]);
                if i == 0 {
                    assert(before =~= Seq::<Seq<char>>::empty());
                    assert(Seq::<char>::empty() + catalog()[0] =~= catalog()[0]);
                }
            }
            i = i + 1;
        }
        assert(catalog().take(catalog().len() as int) == catalog());
        msg.append(OPTION_SEPARATOR);
        msg.append(ALL_REGIONS);
        msg
    }
}

/// The catalog of regions, in order.
pub fn region_list() -> (r: Vec<&'static str>)
    ensures
        r@.len() == catalog().len(),
        forall|i: int| 0 <= i < r@.len() ==> (#[trigger] r@[i])@ == catalog()[i],
{
    let r = vec![
        "ap-east-1",
        "ap-northeast-1",
        "ap-northeast-2",
        "ap-northeast-3",
        "ap-south-1",
        "ap-southeast-1",
        "ap-southeast-2",
        "ca-central-1",
        "eu-central-1",
        "eu-west-1",
        "eu-west-2",
        "eu-west-3",
        "eu-north-1",
        "eu-south-1",
        "me-south-1",
        "sa-east-1",
        "us-east-1",
        "us-east-2",
        "us-west-1",
        "us-west-2",
        "cn-north-1",
        "cn-northwest-1",
        "af-south-1",
    ];
    r
}

/// Reads a region argument: the sentinel `all`, or one region of the catalog.
/// Anything else is refused before any request is made.
pub fn parse_selector(arg: &str) -> (r: Result<Selector, SelectorError>)
    ensures
        arg@ == ALL_REGIONS@ ==> r == Ok::<Selector, SelectorError>(Selector::All),
        arg@ != ALL_REGIONS@ && catalog().contains(arg@) ==> (r is Ok && r->Ok_0 is Single
            && r->Ok_0->Single_0@ == arg@),
        arg@ != ALL_REGIONS@ && !catalog().contains(arg@) ==> r is Err,
{
    let given = arg.to_owned();
    if given == ALL_REGIONS.to_owned() {
        return Ok(Selector::All);
    }
    let regions = region_list();
    let mut i: usize = 0;
    while i < regions.len()
        invariant
            i <= regions@.len(),
            given@ == arg@,
            arg@ != ALL_REGIONS@,
            regions@.len() == catalog().len(),
            forall|j: int| 0 <= j < regions@.len() ==> (#[trigger] regions@[j])@ == catalog()[j],
            forall|j: int| 0 <= j < i ==> catalog()[j] != arg@,
        decreases regions@.len() - i,
    {
        if given == regions[i].to_owned() {
            return Ok(Selector::Single(given));
        }
        i = i + 1;
    }
    Err(SelectorError::UnknownRegion)
}

/// The regions that a selector covers, in the order in which they are visited.
pub open spec fn selected(sel: Selector) -> Seq<Seq<char>> {
    match sel {
        Selector::Single(s) => seq![s@],
        Selector::All => catalog(),
    }
}

/// The regions to visit for a selector: the one named, or the whole catalog
/// in its order.
pub fn plan_regions(sel: &Selector) -> (r: Vec<String>)
    ensures
        r@.map_values(|s: String| s@) == selected(*sel),
        sel is Single ==> r@ == seq![sel->Single_0],
{
    match sel {
        Selector::Single(s) => {
            let r = vec![s.clone()];
            assert(r@.map_values(|s: String| s@) =~= selected(*sel));
            r
        },
        Selector::All => {
            let regions = region_list();
            let mut out: Vec<String> = Vec::new();
            let mut i: usize = 0;
            while i < regions.len()
                invariant
                    i <= regions@.len(),
                    regions@.len() == catalog().len(),
                    forall|j: int| 0 <= j < regions@.len() ==> (#[trigger] regions@[j])@ == catalog()[j],
                    out@.map_values(|s: String| s@) == catalog().take(i as int),
                decreases regions@.len() - i,
            {
                let ghost before = out@;
                let name = regions[i].to_owned();
                out.push(name);
                assert(out@.map_values(|s: String| s@) =~= before.map_values(|s: String| s@).push(
                    name@,
                ));
                assert(catalog().take(i as int + 1) =~= catalog().take(i as int).push(catalog()[i as int]));
                i = i + 1;
            }
            assert(catalog().take(catalog().len() as int) == catalog());
            out
        },
    }
}

/// The views of a sequence of record lists.
pub open spec fn parts_view(parts: Seq<Vec<Details>>) -> Seq<Seq<Details>> {
    parts.map_values(|v: Vec<Details>| v@)
}

/// Joins the regions' results into one list, region after region, each kept
/// in its own order.
pub fn process_all_regions(parts: Vec<Vec<Details>>) -> (r: Vec<Details>)
    ensures
        r@ == parts_view(parts@).flatten(),
{
    let mut parts = parts;
    let mut out: Vec<Details> = Vec::new();
    let ghost all = parts@;
    let mut i: usize = 0;
    while i < parts.len()
        invariant
            i <= parts@.len(),
            parts@.len() == all.len(),
            forall|j: int| i <= j < all.len() ==> parts@[j] == all[j],
            out@ == parts_view(all.take(i as int)).flatten(),
        decreases parts@.len() - i,
    {
        let mut part: Vec<Details> = Vec::new();
        std::mem::swap(&mut part, &mut parts[i]);
        out.append(&mut part);
        proof {
            assert(parts_view(all.take(i as int + 1)) =~= parts_view(all.take(i as int)).push(all[i as int]@));
            parts_view(all.take(i as int)).lemma_flatten_push(all[i as int]@);
        }
        i = i + 1;
    }
    assert(all.take(all.len() as int) == all);
    out
}

/// The region of each record, in order.
pub open spec fn regions_of(ds: Seq<Details>) -> Seq<String> {
    ds.map_values(|d: Details| d.region)
}

/// For each part, its length many copies of the matching region, joined.
pub open spec fn region_blocks(regions: Seq<String>, parts: Seq<Seq<Details>>) -> Seq<Seq<String>> {
    Seq::new(parts.len(), |i: int| Seq::new(parts[i].len(), |j: int| regions[i]))
}

/// Over the whole catalog, where each region's part is what its own
/// collection gathered, the joined output runs through the regions in catalog
/// order: first all records of the first region, then all of the second, and
/// so on, each block exactly as long as that region's own result.
pub proof fn lemma_all_regions_in_order(
    regions: Seq<String>,
    outs: Seq<Seq<FetchOutcome>>,
    parts: Seq<Seq<Details>>,
)
    requires
        regions.map_values(|s: String| s@) == catalog(),
        outs.len() == regions.len(),
        parts.len() == regions.len(),
        forall|i: int| 0 <= i < parts.len() ==> #[trigger] parts[i] == drive(start(regions[i]), outs[i]).collected,
    ensures
        regions_of(parts.flatten()) == region_blocks(regions, parts).flatten(),
{
    lemma_prefix_in_order(regions, outs, parts, parts.len() as int);
    assert(parts.take(parts.len() as int) == parts);
    assert(region_blocks(regions, parts).take(parts.len() as int) == region_blocks(regions, parts));
}

proof fn lemma_prefix_in_order(
    regions: Seq<String>,
    outs: Seq<Seq<FetchOutcome>>,
    parts: Seq<Seq<Details>>,
    k: int,
)
    requires
        0 <= k <= parts.len(),
        outs.len() == regions.len(),
        parts.len() == regions.len(),
        forall|i: int| 0 <= i < parts.len() ==> #[trigger] parts[i] == drive(start(regions[i]), outs[i]).collected,
    ensures
        regions_of(parts.take(k).flatten()) == region_blocks(regions, parts).take(k).flatten(),
    decreases k,
{
    if k == 0 {
        assert(parts.take(0) =~= Seq::<Seq<Details>>::empty());
        assert(region_blocks(regions, parts).take(0) =~= Seq::<Seq<String>>::empty());
        assert(regions_of(Seq::<Details>::empty()) =~= Seq::<String>::empty());
    } else {
        let m = k - 1;
        lemma_prefix_in_order(regions, outs, parts, m);
        let a = parts.take(m);
        let b = region_blocks(regions, parts).take(m);
        assert(parts.take(k) =~= a.push(parts[m]));
        assert(region_blocks(regions, parts).take(k) =~= b.push(region_blocks(regions, parts)[m]));
        a.lemma_flatten_push(parts[m]);
        b.lemma_flatten_push(region_blocks(regions, parts)[m]);
        lemma_region_stamped(regions[m], outs[m]);
        assert(regions_of(parts[m]) =~= region_blocks(regions, parts)[m]);
        assert(regions_of(a.flatten() + parts[m]) =~= regions_of(a.flatten()) + regions_of(parts[m]));
    }
}

} // verus!
