//! Collects compute instances region by region, page by page, and flattens
//! them into uniform `Details` records.
//!
//! The library holds every decision of the collection: which regions a
//! selector names, how each page request is formed, how a page is flattened,
//! when a region's pagination stops, and how the regions' results are joined.
//! The network calls themselves are made by the caller, who hands each
//! outcome back to the state machines here.
pub mod model;
pub mod tags;
pub mod normalize;
pub mod pager;
pub mod regions;

pub use model::{Details, InstanceState, PageResult, RawInstance, Reservation, Tag, TagMap};
pub use tags::map_tags;
pub use normalize::{instance_map, normalize_instance, process_reservations};
pub use pager::{get_instance_request, FetchOutcome, PageRequest, PagerState, RegionCollector, PAGE_SIZE};
pub use regions::{
    parse_selector, plan_regions, process_all_regions, region_list, Selector, SelectorError, ALL_REGIONS,
    OPTION_SEPARATOR, UNKNOWN_REGION_TEXT,
};

