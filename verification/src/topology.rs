//! Topology aggregator: reduces a listing of container records into
//! summary counts (total/running/healthy/unhealthy, per-category
//! counts) and the list of navigable view identifiers.

use vstd::prelude::*;

use crate::models::{
    CategoryCount, ContainerInfo, ContainerStatus, FlowchartSummary, ServiceCategory,
    SystemTopology, category_display_name, category_tag, spec_category_display, spec_category_tag,
};
use crate::strutil::{concat2, to_string_owned};

verus! {

/// Number of records in category `c`.
pub open spec fn count_cat(s: Seq<ContainerInfo>, c: ServiceCategory) -> int
    decreases s.len(),
{
    if s.len() == 0 {
        0
    } else {
        count_cat(s.drop_last(), c) + if s.last().category == c {
            1int
        } else {
            0int
        }
    }
}

/// Number of records whose status counts as up (running or healthy).
pub open spec fn count_up(s: Seq<ContainerInfo>) -> int
    decreases s.len(),
{
    if s.len() == 0 {
        0
    } else {
        count_up(s.drop_last()) + if s.last().status.spec_is_up() {
            1int
        } else {
            0int
        }
    }
}

/// Number of records with a given status.
pub open spec fn count_status(s: Seq<ContainerInfo>, st: ContainerStatus) -> int
    decreases s.len(),
{
    if s.len() == 0 {
        0
    } else {
        count_status(s.drop_last(), st) + if s.last().status == st {
            1int
        } else {
            0int
        }
    }
}

/// Number of records in category `c` whose status counts as up.
pub open spec fn count_up_cat(s: Seq<ContainerInfo>, c: ServiceCategory) -> int
    decreases s.len(),
{
    if s.len() == 0 {
        0
    } else {
        count_up_cat(s.drop_last(), c) + if s.last().category == c && s.last().status.spec_is_up() {
            1int
        } else {
            0int
        }
    }
}

pub proof fn lemma_count_up_cat_bounds(s: Seq<ContainerInfo>, c: ServiceCategory)
    ensures
        0 <= count_up_cat(s, c) <= count_cat(s, c),
    decreases s.len(),
{
    if s.len() > 0 {
        lemma_count_up_cat_bounds(s.drop_last(), c);
    }
}

/// Count the records in category `c`.
pub fn count_category(records: &Vec<ContainerInfo>, c: &ServiceCategory) -> (r: usize)
    ensures
        r == count_cat(records@, *c),
{
    let n = records.len();
    let mut acc: usize = 0;
    let mut i: usize = 0;
    proof {
        assert(records@.take(0) =~= Seq::<ContainerInfo>::empty());
    }
    while i < n
        invariant
            n == records@.len(),
            i <= n,
            acc <= i,
            acc == count_cat(records@.take(i as int), *c),
        decreases n - i,
    {
        proof {
            assert(records@.take(i + 1 as int).drop_last() =~= records@.take(i as int));
            assert(records@.take(i + 1 as int).last() == records@[i as int]);
        }
        if records[i].category == *c {
            acc += 1;
        }
        i += 1;
    }
    proof {
        assert(records@.take(n as int) =~= records@);
    }
    acc
}

/// Count the records in category `c` whose status is up.
pub fn count_up_category(records: &Vec<ContainerInfo>, c: &ServiceCategory) -> (r: usize)
    ensures
        r == count_up_cat(records@, *c),
{
    let n = records.len();
    let mut acc: usize = 0;
    let mut i: usize = 0;
    proof {
        assert(records@.take(0) =~= Seq::<ContainerInfo>::empty());
    }
    while i < n
        invariant
            n == records@.len(),
            i <= n,
            acc <= i,
            acc == count_up_cat(records@.take(i as int), *c),
        decreases n - i,
    {
        proof {
            assert(records@.take(i + 1 as int).drop_last() =~= records@.take(i as int));
            assert(records@.take(i + 1 as int).last() == records@[i as int]);
        }
        if records[i].category == *c && records[i].status.is_up() {
            acc += 1;
        }
        i += 1;
    }
    proof {
        assert(records@.take(n as int) =~= records@);
    }
    acc
}

/// The fixed category order used by the system view and the topology
/// overview; the eight categories with overview views first, `Other`
/// last.
pub open spec fn category_order(i: int) -> ServiceCategory {
    if i == 0 {
        ServiceCategory::Aiml
    } else if i == 1 {
        ServiceCategory::Application
    } else if i == 2 {
        ServiceCategory::Infrastructure
    } else if i == 3 {
        ServiceCategory::Frontend
    } else if i == 4 {
        ServiceCategory::Monitoring
    } else if i == 5 {
        ServiceCategory::Val
    } else if i == 6 {
        ServiceCategory::Blockchain
    } else if i == 7 {
        ServiceCategory::Game
    } else {
        ServiceCategory::Other
    }
}

/// The fixed category order, as executable lookup.
pub fn category_order_exec(i: usize) -> (r: ServiceCategory)
    requires
        i <= 8,
    ensures
        r == category_order(i as int),
{
    if i == 0 {
        ServiceCategory::Aiml
    } else if i == 1 {
        ServiceCategory::Application
    } else if i == 2 {
        ServiceCategory::Infrastructure
    } else if i == 3 {
        ServiceCategory::Frontend
    } else if i == 4 {
        ServiceCategory::Monitoring
    } else if i == 5 {
        ServiceCategory::Val
    } else if i == 6 {
        ServiceCategory::Blockchain
    } else if i == 7 {
        ServiceCategory::Game
    } else {
        ServiceCategory::Other
    }
}

/// The categories among the first `i` of the fixed order that have at
/// least one record.
pub open spec fn present_cats_prefix(s: Seq<ContainerInfo>, i: int) -> Seq<ServiceCategory>
    decreases i,
{
    if i <= 0 {
        Seq::empty()
    } else {
        present_cats_prefix(s, i - 1) + if count_cat(s, category_order(i - 1)) > 0 {
            seq![category_order(i - 1)]
        } else {
            Seq::<ServiceCategory>::empty()
        }
    }
}

/// The non-empty categories, in the fixed order, `Other` included.
pub open spec fn present_cats(s: Seq<ContainerInfo>) -> Seq<ServiceCategory> {
    present_cats_prefix(s, 9)
}

/// `sm` is the view summary of category `c` over `s`.
pub open spec fn summary_matches(sm: FlowchartSummary, s: Seq<ContainerInfo>, c: ServiceCategory) -> bool {
    &&& sm.id@ == spec_category_tag(c) + "-overview"@
    &&& sm.name@ == spec_category_display(c) + " Services"@
    &&& sm.node_count == count_cat(s, c)
    &&& sm.category == c
}

/// `sm` is the synthetic system-overview summary over `s`.
pub open spec fn system_summary_matches(sm: FlowchartSummary, s: Seq<ContainerInfo>) -> bool {
    &&& sm.id@ == "system-overview"@
    &&& sm.name@ == "VAL System Overview"@
    &&& sm.node_count == s.len()
    &&& sm.category == ServiceCategory::Other
}

/// The summary list is the synthetic system entry followed by one
/// entry per non-empty category, in the fixed order.
pub open spec fn summaries_match(r: Seq<FlowchartSummary>, s: Seq<ContainerInfo>) -> bool {
    &&& r.len() == 1 + present_cats(s).len()
    &&& system_summary_matches(r[0], s)
    &&& forall|k: int|
        0 <= k < present_cats(s).len() ==> summary_matches(#[trigger] r[k + 1], s, present_cats(s)[k])
}

/// Build the list of navigable view summaries: the system overview
/// first, then one entry per non-empty category.
pub fn generate_flowchart_summaries(records: &Vec<ContainerInfo>) -> (r: Vec<FlowchartSummary>)
    ensures
        summaries_match(r@, records@),
{
    let mut out: Vec<FlowchartSummary> = Vec::new();
    out.push(
        FlowchartSummary {
            id: to_string_owned("system-overview"),
            name: to_string_owned("VAL System Overview"),
            node_count: records.len(),
            category: ServiceCategory::Other,
        },
    );
    let mut i: usize = 0;
    while i < 9
        invariant
            i <= 9,
            out@.len() == 1 + present_cats_prefix(records@, i as int).len(),
            system_summary_matches(out@[0], records@),
            forall|k: int|
                0 <= k < present_cats_prefix(records@, i as int).len() ==> summary_matches(
                    #[trigger] out@[k + 1],
                    records@,
                    present_cats_prefix(records@, i as int)[k],
                ),
        decreases 9 - i,
    {
        let c = category_order_exec(i);
        let n = count_category(records, &c);
        if n > 0 {
            let tag = category_tag(&c);
            out.push(
                FlowchartSummary {
                    id: concat2(tag, "-overview"),
                    name: concat2(category_display_name(&c), " Services"),
                    node_count: n,
                    category: c,
                },
            );
        }
        i += 1;
    }
    proof {
        assert(present_cats(records@) == present_cats_prefix(records@, 9));
    }
    out
}

/// `t` is the topology snapshot of `s` at `generated_at`.
pub open spec fn topology_matches(t: SystemTopology, s: Seq<ContainerInfo>, generated_at: i64) -> bool {
    &&& t.total_containers == s.len()
    &&& t.running_containers == count_up(s)
    &&& t.healthy_containers == count_status(s, ContainerStatus::Healthy)
    &&& t.unhealthy_containers == count_status(s, ContainerStatus::Unhealthy)
    &&& t.categories@.len() == present_cats(s).len()
    &&& forall|k: int|
        0 <= k < present_cats(s).len() ==> {
            &&& (#[trigger] t.categories@[k]).category@ == spec_category_tag(present_cats(s)[k])
            &&& t.categories@[k].count == count_cat(s, present_cats(s)[k])
        }
    &&& summaries_match(t.flowcharts@, s)
    &&& t.generated_at == generated_at
}

/// Aggregate a listing into the topology snapshot: totals, per-category
/// counts keyed by the lower-case tag, and the view summaries.
pub fn build_topology(records: &Vec<ContainerInfo>, generated_at: i64) -> (t: SystemTopology)
    ensures
        topology_matches(t, records@, generated_at),
{
    let n = records.len();
    let mut running: usize = 0;
    let mut healthy: usize = 0;
    let mut unhealthy: usize = 0;
    let mut i: usize = 0;
    proof {
        assert(records@.take(0) =~= Seq::<ContainerInfo>::empty());
    }
    while i < n
        invariant
            n == records@.len(),
            i <= n,
            running <= i,
            healthy <= i,
            unhealthy <= i,
            running == count_up(records@.take(i as int)),
            healthy == count_status(records@.take(i as int), ContainerStatus::Healthy),
            unhealthy == count_status(records@.take(i as int), ContainerStatus::Unhealthy),
        decreases n - i,
    {
        proof {
            assert(records@.take(i + 1 as int).drop_last() =~= records@.take(i as int));
            assert(records@.take(i + 1 as int).last() == records@[i as int]);
        }
        if records[i].status.is_up() {
            running += 1;
        }
        if records[i].status == ContainerStatus::Healthy {
            healthy += 1;
        }
        if records[i].status == ContainerStatus::Unhealthy {
            unhealthy += 1;
        }
        i += 1;
    }
    proof {
        assert(records@.take(n as int) =~= records@);
    }
    let mut categories: Vec<CategoryCount> = Vec::new();
    let mut j: usize = 0;
    while j < 9
        invariant
            j <= 9,
            categories@.len() == present_cats_prefix(records@, j as int).len(),
            forall|k: int|
                0 <= k < present_cats_prefix(records@, j as int).len() ==> {
                    &&& (#[trigger] categories@[k]).category@ == spec_category_tag(
                        present_cats_prefix(records@, j as int)[k],
                    )
                    &&& categories@[k].count == count_cat(
                        records@,
                        present_cats_prefix(records@, j as int)[k],
                    )
                },
        decreases 9 - j,
    {
        let c = category_order_exec(j);
        let cnt = count_category(records, &c);
        if cnt > 0 {
            categories.push(
                CategoryCount { category: to_string_owned(category_tag(&c)), count: cnt },
            );
        }
        j += 1;
    }
    let flowcharts = generate_flowchart_summaries(records);
    SystemTopology {
        total_containers: n,
        running_containers: running,
        healthy_containers: healthy,
        unhealthy_containers: unhealthy,
        categories,
        flowcharts,
        generated_at,
    }
}

} // verus!
