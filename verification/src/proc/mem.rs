use crate::proc::error::Error;
use crate::proc::maps::{filter_by_path_exact, records_named, MappingRecord, PageInfo};
use vstd::prelude::*;

verus! {

/// One copy of an extraction: `length` bytes of the process's memory, read at the
/// address `source`, go to the output at the offset `target`.
#[derive(Clone, Copy, Debug, PartialEq, Eq, Structural)]
pub struct CopyStep {
    pub source: u64,
    pub length: u64,
    pub target: u64,
}

/// The first index at or after `from` whose record meets `wanted`, or the length of
/// `records` if none does.
pub open spec fn first_where(
    records: Seq<PageInfo>,
    wanted: spec_fn(PageInfo) -> bool,
    from: int,
) -> int
    decreases records.len() - from,
{
    if from >= records.len() {
        records.len() as int
    } else if from >= 0 && wanted(records[from]) {
        from
    } else {
        first_where(records, wanted, from + 1)
    }
}

/// `first_where` is the first index from `from` on whose record meets `wanted`.
pub proof fn lemma_first_where(
    records: Seq<PageInfo>,
    wanted: spec_fn(PageInfo) -> bool,
    from: int,
    at: int,
)
    requires
        0 <= from <= at <= records.len(),
        forall|j: int| from <= j < at ==> !wanted(records[j]),
        at < records.len() ==> wanted(records[at]),
    ensures
        first_where(records, wanted, from) == at,
    decreases at - from,
{
    if from < at {
        lemma_first_where(records, wanted, from + 1, at);
    }
}

/// What `first_where` returns: an index in range, before which no record meets `wanted`
/// and at which one does.
pub proof fn lemma_first_where_is_first(
    records: Seq<PageInfo>,
    wanted: spec_fn(PageInfo) -> bool,
    from: int,
)
    requires
        0 <= from <= records.len(),
    ensures
        from <= first_where(records, wanted, from) <= records.len(),
        forall|j: int| from <= j < first_where(records, wanted, from) ==> !wanted(records[j]),
        first_where(records, wanted, from) < records.len() ==> wanted(
            records[first_where(records, wanted, from)],
        ),
    decreases records.len() - from,
{
    if from < records.len() && !wanted(records[from]) {
        lemma_first_where_is_first(records, wanted, from + 1);
    }
}

/// The index of the first record whose region holds `address`, or the length of
/// `records`.
pub open spec fn first_covering(records: Seq<PageInfo>, address: u64) -> int {
    first_where(records, |r: PageInfo| r@.covers(address), 0)
}

/// The index of the first record at or after `from` that begins at or past `end`, or the
/// length of `records`.
pub open spec fn first_beyond(records: Seq<PageInfo>, end: u64, from: int) -> int {
    first_where(records, |r: PageInfo| r.begin >= end, from)
}

/// What a record gives to the window `[begin, end)`: nothing if it is not readable or
/// does not reach into the window, else the copy of the part of it inside the window, to
/// the offset of that part from the window's start.
pub open spec fn window_step(r: MappingRecord, begin: u64, end: u64) -> Option<CopyStep> {
    let from = if r.begin >= begin {
        r.begin
    } else {
        begin
    };
    let to = if r.end <= end {
        r.end
    } else {
        end
    };
    if r.perms.read && from < to {
        Some(CopyStep { source: from, length: (to - from) as u64, target: (from - begin) as u64 })
    } else {
        None
    }
}

/// The records that an extraction of `[begin, end)` walks: from the first one that holds
/// `begin` up to, and without, the next one that begins at or past `end`.
pub open spec fn walked(records: Seq<PageInfo>, begin: u64, end: u64) -> Seq<PageInfo> {
    let first = first_covering(records, begin);
    records.subrange(first, first_beyond(records, end, first))
}

/// The copies that extract the window `[begin, end)`, one for each record walked that
/// has something to give, in the order of the listing.
pub open spec fn range_plan(records: Seq<PageInfo>, begin: u64, end: u64) -> Seq<CopyStep> {
    walked(records, begin, end).filter_map(|r: PageInfo| window_step(r@, begin, end))
}

/// Checks that the address range `[begin, end)` holds an address. This needs no listing,
/// so that a caller can refuse a bad range before it reads anything.
pub fn check_range(begin: u64, end: u64) -> (r: Result<(), Error>)
    ensures
        match r {
            Ok(_) => begin < end,
            Err(e) => begin >= end && e == (Error::InvalidRange { begin, end }),
        },
{
    if begin >= end {
        Err(Error::InvalidRange { begin, end })
    } else {
        Ok(())
    }
}

/// Plans the extraction of the address range `[begin, end)` from a process whose listing
/// is `maps`.
///
/// The range must not be empty, and `begin` must lie in a mapped region. The plan then
/// holds one copy for each readable region from there on that reaches into the range;
/// regions that are not readable are passed over. The output mirrors the range, with
/// `begin` at offset 0, and the number of copies is the number of pages that the
/// extraction counts. Nothing is read or written here.
pub fn mem_dump(maps: &Vec<PageInfo>, begin: u64, end: u64) -> (r: Result<Vec<CopyStep>, Error>)
    ensures
        match r {
            Ok(plan) => begin < end && first_covering(maps@, begin) < maps.len() && plan@
                == range_plan(maps@, begin, end),
            Err(e) => if begin >= end {
                e == (Error::InvalidRange { begin, end })
            } else {
                first_covering(maps@, begin) == maps.len() && e == (Error::AddressOutOfRange {
                    address: begin,
                })
            },
        },
{
    match check_range(begin, end) {
        Ok(_) => {},
        Err(e) => {
            return Err(e);
        },
    }
    let ghost covering = |r: PageInfo| r@.covers(begin);
    let ghost beyond = |r: PageInfo| r.begin >= end;
    let ghost give = |r: PageInfo| window_step(r@, begin, end);
    let mut first: usize = 0;
    while first < maps.len() && !maps[first].match_range(begin)
        invariant
            first <= maps.len(),
            covering == |r: PageInfo| r@.covers(begin),
            forall|j: int| 0 <= j < first ==> !covering(maps@[j]),
        decreases maps.len() - first,
    {
        first += 1;
    }
    proof {
        lemma_first_where(maps@, covering, 0, first as int);
    }
    if first == maps.len() {
        return Err(Error::AddressOutOfRange { address: begin });
    }
    let mut plan: Vec<CopyStep> = Vec::new();
    let mut i: usize = first;
    while i < maps.len() && maps[i].begin < end
        invariant
            first <= i <= maps.len(),
            begin < end,
            beyond == |r: PageInfo| r.begin >= end,
            give == |r: PageInfo| window_step(r@, begin, end),
            forall|j: int| first <= j < i ==> !beyond(maps@[j]),
            plan@ == maps@.subrange(first as int, i as int).filter_map(give),
        decreases maps.len() - i,
    {
        let page = &maps[i];
        proof {
            let seen = maps@.subrange(first as int, i + 1);
            assert(seen.drop_last() =~= maps@.subrange(first as int, i as int));
        }
        let from = if page.begin >= begin {
            page.begin
        } else {
            begin
        };
        let to = if page.end <= end {
            page.end
        } else {
            end
        };
        if page.perms.read && from < to {
            plan.push(CopyStep { source: from, length: to - from, target: from - begin });
        }
        i += 1;
    }
    proof {
        lemma_first_where(maps@, beyond, first as int, i as int);
    }
    Ok(plan)
}

/// The least `begin` among the records, or 0 where there is no record.
pub open spec fn lowest_begin(records: Seq<PageInfo>) -> u64
    decreases records.len(),
{
    if records.len() == 0 {
        0
    } else if records.len() == 1 || records.last().begin < lowest_begin(records.drop_last()) {
        records.last().begin
    } else {
        lowest_begin(records.drop_last())
    }
}

/// No record begins below `lowest_begin`.
pub proof fn lemma_lowest_begin(records: Seq<PageInfo>, i: int)
    requires
        0 <= i < records.len(),
    ensures
        lowest_begin(records) <= records[i].begin,
    decreases records.len(),
{
    if i < records.len() - 1 {
        lemma_lowest_begin(records.drop_last(), i);
    }
}

/// What a record gives to an image whose offset 0 stands for the address `base`:
/// nothing if it is not readable or is empty, else the copy of the whole region to its
/// distance from `base`.
pub open spec fn image_step(r: MappingRecord, base: u64) -> Option<CopyStep> {
    if r.perms.read && r.begin < r.end {
        Some(
            CopyStep {
                source: r.begin,
                length: (r.end - r.begin) as u64,
                target: (r.begin - base) as u64,
            },
        )
    } else {
        None
    }
}

/// `sorted` with `step` put in behind the last step that does not start after it.
pub open spec fn insert_step(sorted: Seq<CopyStep>, step: CopyStep) -> Seq<CopyStep>
    decreases sorted.len(),
{
    if sorted.len() == 0 || sorted.last().source <= step.source {
        sorted.push(step)
    } else {
        insert_step(sorted.drop_last(), step).push(sorted.last())
    }
}

/// The steps in ascending order of their source. Steps with the same source keep the
/// order in which they came.
pub open spec fn sort_steps(steps: Seq<CopyStep>) -> Seq<CopyStep>
    decreases steps.len(),
{
    if steps.len() == 0 {
        Seq::empty()
    } else {
        insert_step(sort_steps(steps.drop_last()), steps.last())
    }
}

/// The steps are in ascending order of their source.
pub open spec fn ascending(steps: Seq<CopyStep>) -> bool {
    forall|i: int, j: int| 0 <= i < j < steps.len() ==> steps[i].source <= steps[j].source
}

proof fn lemma_insert_step_bound(sorted: Seq<CopyStep>, step: CopyStep, bound: u64)
    requires
        forall|i: int| 0 <= i < sorted.len() ==> sorted[i].source <= bound,
        step.source <= bound,
    ensures
        insert_step(sorted, step).len() == sorted.len() + 1,
        forall|k: int|
            0 <= k < insert_step(sorted, step).len() ==> insert_step(sorted, step)[k].source
                <= bound,
    decreases sorted.len(),
{
    if !(sorted.len() == 0 || sorted.last().source <= step.source) {
        lemma_insert_step_bound(sorted.drop_last(), step, bound);
    }
}

/// Putting a step into ascending steps keeps them ascending, and adds that step and no
/// other.
pub proof fn lemma_insert_step(sorted: Seq<CopyStep>, step: CopyStep)
    requires
        ascending(sorted),
    ensures
        ascending(insert_step(sorted, step)),
        insert_step(sorted, step).to_multiset() == sorted.to_multiset().insert(step),
    decreases sorted.len(),
{
    broadcast use vstd::seq_lib::to_multiset_build;

    if !(sorted.len() == 0 || sorted.last().source <= step.source) {
        let front = sorted.drop_last();
        let last = sorted.last();
        lemma_insert_step(front, step);
        lemma_insert_step_bound(front, step, last.source);
        assert(sorted =~= front.push(last));
    }
}

/// Sorting puts the steps in ascending order of source, neither adds a step nor drops
/// one, and leaves steps alone that are in ascending order already.
pub proof fn lemma_sort_steps(steps: Seq<CopyStep>)
    ensures
        ascending(sort_steps(steps)),
        sort_steps(steps).to_multiset() == steps.to_multiset(),
        ascending(steps) ==> sort_steps(steps) == steps,
    decreases steps.len(),
{
    broadcast use vstd::seq_lib::to_multiset_build;

    if steps.len() > 0 {
        let front = steps.drop_last();
        lemma_sort_steps(front);
        lemma_insert_step(sort_steps(front), steps.last());
        assert(steps =~= front.push(steps.last()));
        vstd::seq_lib::to_multiset_build(front, steps.last());
    } else {
        assert(steps =~= Seq::<CopyStep>::empty());
    }
}

/// The copies that rebuild the image of a selection of records: one for each readable
/// record, in ascending order of address, each to its distance from the lowest address
/// at which a record of the selection begins.
pub open spec fn image_plan(records: Seq<PageInfo>) -> Seq<CopyStep> {
    sort_steps(records.filter_map(|r: PageInfo| image_step(r@, lowest_begin(records))))
}

/// The least `begin` among the records.
fn lowest(records: &Vec<PageInfo>) -> (base: u64)
    ensures
        base == lowest_begin(records@),
{
    let mut base: u64 = 0;
    let mut i: usize = 0;
    while i < records.len()
        invariant
            i <= records.len(),
            base == lowest_begin(records@.take(i as int)),
        decreases records.len() - i,
    {
        assert(records@.take(i + 1).drop_last() =~= records@.take(i as int));
        if i == 0 || records[i].begin < base {
            base = records[i].begin;
        }
        i += 1;
    }
    assert(records@.take(i as int) =~= records@);
    base
}

/// Puts `step` into the sorted `steps`, behind the last step that does not start after
/// it.
fn place(steps: &mut Vec<CopyStep>, step: CopyStep)
    ensures
        final(steps)@ == insert_step(old(steps)@, step),
{
    let ghost before = steps@;
    let mut at: usize = steps.len();
    proof {
        assert(before.take(at as int) =~= before);
    }
    while at > 0 && steps[at - 1].source > step.source
        invariant
            at <= steps.len(),
            steps@ == before,
            insert_step(before, step) == insert_step(before.take(at as int), step)
                + before.skip(at as int),
        decreases at,
    {
        proof {
            let head = before.take(at as int);
            assert(head.drop_last() =~= before.take(at - 1));
        }
        at -= 1;
    }
    steps.insert(at, step);
}

/// Plans the extraction of a selection of records into one image.
///
/// The image keeps the layout of the regions in memory: offset 0 stands for the lowest
/// address at which a record of the selection begins, and each readable region goes to
/// its distance from there, in ascending order of address. Records that are not readable
/// are passed over, and an empty selection gives an empty plan. The number of copies is
/// the number of pages that the extraction counts. Nothing is read or written here.
pub fn dump_pages(target: Vec<PageInfo>) -> (plan: Vec<CopyStep>)
    ensures
        plan@ == image_plan(target@),
{
    let base = lowest(&target);
    let ghost give = |r: PageInfo| image_step(r@, lowest_begin(target@));
    let mut plan: Vec<CopyStep> = Vec::new();
    let mut i: usize = 0;
    while i < target.len()
        invariant
            i <= target.len(),
            base == lowest_begin(target@),
            give == |r: PageInfo| image_step(r@, lowest_begin(target@)),
            plan@ == sort_steps(target@.take(i as int).filter_map(give)),
        decreases target.len() - i,
    {
        let page = &target[i];
        proof {
            let seen = target@.take(i + 1);
            assert(seen.drop_last() =~= target@.take(i as int));
            if give(target@[i as int]) is Some {
                let steps = target@.take(i as int).filter_map(give);
                let step = give(target@[i as int])->0;
                assert((steps + seq![step]).drop_last() =~= steps);
            }
            lemma_lowest_begin(target@, i as int);
        }
        if page.perms.read && page.begin < page.end {
            place(
                &mut plan,
                CopyStep {
                    source: page.begin,
                    length: page.end - page.begin,
                    target: page.begin - base,
                },
            );
        }
        i += 1;
    }
    assert(target@.take(i as int) =~= target@);
    plan
}

/// Plans the extraction of the image of the library `name` from a process whose listing
/// is `maps`.
///
/// The selection is every record whose pathname is `name`, character for character.
/// Where there is none the library is not mapped, and that is an error here: the caller
/// learns it from `LibraryNotMapped`, and not from an empty plan.
pub fn dump_library(maps: &Vec<PageInfo>, name: &str) -> (r: Result<Vec<CopyStep>, Error>)
    ensures
        match r {
            Ok(plan) => records_named(maps@, name@).len() > 0 && plan@ == image_plan(
                records_named(maps@, name@),
            ),
            Err(Error::LibraryNotMapped { name: missing }) => records_named(maps@, name@).len()
                == 0 && missing@ == name@,
            Err(_) => false,
        },
{
    let target = filter_by_path_exact(maps, name);
    if target.len() == 0 {
        return Err(Error::LibraryNotMapped { name: name.to_owned() });
    }
    Ok(dump_pages(target))
}

} // verus!
