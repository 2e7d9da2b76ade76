use crate::proc::maps::PageInfo;
use crate::proc::mem::{
    ascending, first_beyond, first_covering, image_plan, image_step, lemma_first_where_is_first,
    lemma_lowest_begin, lemma_sort_steps, lowest_begin, range_plan, walked, window_step,
    CopyStep,
};
use vstd::prelude::*;

verus! {

/// The listing is in ascending order of address, no region is empty, and no two regions
/// overlap.
pub open spec fn ordered(records: Seq<PageInfo>) -> bool {
    &&& forall|i: int| 0 <= i < records.len() ==> (#[trigger] records[i]).begin < records[i].end
    &&& forall|i: int, j: int|
        0 <= i < j < records.len() ==> (#[trigger] records[i]).end <= (#[trigger] records[j]).begin
}

/// The record is readable and reaches into the window `[begin, end)`.
pub open spec fn touches(r: PageInfo, begin: u64, end: u64) -> bool {
    r.perms.read && r.begin < end && begin < r.end
}

/// The readable records that reach into the window `[begin, end)`, in the order of the
/// listing.
pub open spec fn touched(records: Seq<PageInfo>, begin: u64, end: u64) -> Seq<PageInfo> {
    records.filter(|r: PageInfo| touches(r, begin, end))
}

/// The step writes the output at `offset`.
pub open spec fn writes(step: CopyStep, offset: int) -> bool {
    step.target <= offset < step.target + step.length
}

/// The output after the step: what it was, but for the offsets that the step writes, which
/// now hold the bytes of `memory` that the step reads.
pub open spec fn after_step(out: Map<int, u8>, step: CopyStep, memory: spec_fn(int) -> u8) -> Map<
    int,
    u8,
> {
    Map::new(
        |o: int| out.dom().contains(o) || writes(step, o),
        |o: int|
            if writes(step, o) {
                memory(step.source + (o - step.target))
            } else {
                out[o]
            },
    )
}

/// The output once every step of the plan has run, in order, on an output that held
/// nothing. An offset outside the domain was never written: it is a hole.
pub open spec fn output_of(plan: Seq<CopyStep>, memory: spec_fn(int) -> u8) -> Map<int, u8>
    decreases plan.len(),
{
    if plan.len() == 0 {
        Map::empty()
    } else {
        after_step(output_of(plan.drop_last(), memory), plan.last(), memory)
    }
}

/// Each step that `filter_map` gives comes from an element of the sequence.
proof fn lemma_step_origin(
    s: Seq<PageInfo>,
    give: spec_fn(PageInfo) -> Option<CopyStep>,
    k: int,
) -> (i: int)
    requires
        0 <= k < s.filter_map(give).len(),
    ensures
        0 <= i < s.len(),
        give(s[i]) == Some(s.filter_map(give)[k]),
    decreases s.len(),
{
    let rest = s.drop_last();
    if give(s.last()) is Some && k == rest.filter_map(give).len() {
        s.len() - 1
    } else {
        lemma_step_origin(rest, give, k)
    }
}

/// Each element that gives a step has that step in what `filter_map` gives.
proof fn lemma_step_present(
    s: Seq<PageInfo>,
    give: spec_fn(PageInfo) -> Option<CopyStep>,
    i: int,
) -> (k: int)
    requires
        0 <= i < s.len(),
        give(s[i]) is Some,
    ensures
        0 <= k < s.filter_map(give).len(),
        give(s[i]) == Some(s.filter_map(give)[k]),
    decreases s.len(),
{
    let rest = s.drop_last();
    if i == s.len() - 1 {
        rest.filter_map(give).len() as int
    } else {
        lemma_step_present(rest, give, i)
    }
}

/// What the output holds once a plan has run whose steps all read `shift` bytes above
/// where they write: an offset is written where a step writes it, and then holds the
/// byte of memory that lies `shift` above it.
proof fn lemma_output_of(plan: Seq<CopyStep>, memory: spec_fn(int) -> u8, shift: int, o: int)
    requires
        forall|k: int| 0 <= k < plan.len() ==> (#[trigger] plan[k]).source == plan[k].target + shift,
    ensures
        output_of(plan, memory).dom().contains(o) <==> exists|k: int|
            0 <= k < plan.len() && writes(#[trigger] plan[k], o),
        output_of(plan, memory).dom().contains(o) ==> output_of(plan, memory)[o] == memory(
            o + shift,
        ),
    decreases plan.len(),
{
    if plan.len() > 0 {
        let rest = plan.drop_last();
        assert forall|k: int| 0 <= k < rest.len() implies (#[trigger] rest[k]).source
            == rest[k].target + shift by {
            assert(rest[k] == plan[k]);
        }
        lemma_output_of(rest, memory, shift, o);
        if writes(plan.last(), o) {
            assert(writes(plan[plan.len() - 1], o));
        } else if output_of(rest, memory).dom().contains(o) {
            let k = choose|k: int| 0 <= k < rest.len() && writes(#[trigger] rest[k], o);
            assert(writes(plan[k], o));
        } else {
            assert forall|k: int| 0 <= k < plan.len() implies !writes(#[trigger] plan[k], o) by {
                if k < plan.len() - 1 {
                    assert(plan[k] == rest[k]);
                }
            }
        }
    }
}

/// In an ordered listing, the records that an extraction walks are those that reach into
/// the window: none before the first that holds `begin` does, none after the last walked
/// does, and every one in between does.
proof fn lemma_walked_reach(records: Seq<PageInfo>, begin: u64, end: u64)
    requires
        ordered(records),
        begin < end,
        first_covering(records, begin) < records.len(),
    ensures
        ({
            let first = first_covering(records, begin);
            let stop = first_beyond(records, end, first);
            &&& 0 <= first < stop <= records.len()
            &&& records[first]@.covers(begin)
            &&& forall|j: int|
                0 <= j < records.len() ==> ((first <= j < stop) <==> ((#[trigger] records[j]).begin
                    < end && begin < records[j].end))
        }),
{
    let first = first_covering(records, begin);
    let stop = first_beyond(records, end, first);
    lemma_first_where_is_first(records, |r: PageInfo| r@.covers(begin), 0);
    lemma_first_where_is_first(records, |r: PageInfo| r.begin >= end, first);
    assert forall|j: int| 0 <= j < records.len() implies ((first <= j < stop) <==> ((
    #[trigger] records[j]).begin < end && begin < records[j].end)) by {
        if j < first {
            assert(records[j].end <= records[first].begin);
        } else if j >= stop {
            if j > stop {
                assert(records[stop].end <= records[j].begin);
            }
        } else if j > first {
            assert(records[first].end <= records[j].begin);
        }
    }
}

/// Where nothing gives a step, `filter_map` gives none.
proof fn lemma_none_given(s: Seq<PageInfo>, give: spec_fn(PageInfo) -> Option<CopyStep>)
    requires
        forall|i: int| 0 <= i < s.len() ==> give(#[trigger] s[i]) is None,
    ensures
        s.filter_map(give).len() == 0,
    decreases s.len(),
{
    if s.len() > 0 {
        assert(give(s[s.len() - 1]) is None);
        assert forall|i: int| 0 <= i < s.drop_last().len() implies give(
            #[trigger] s.drop_last()[i],
        ) is None by {
            assert(s.drop_last()[i] == s[i]);
        }
        lemma_none_given(s.drop_last(), give);
    }
}

/// What `filter_map` gives for two sequences in a row is what it gives for the first,
/// then what it gives for the second.
proof fn lemma_given_in_a_row(
    x: Seq<PageInfo>,
    y: Seq<PageInfo>,
    give: spec_fn(PageInfo) -> Option<CopyStep>,
)
    ensures
        (x + y).filter_map(give) == x.filter_map(give) + y.filter_map(give),
    decreases y.len(),
{
    if y.len() == 0 {
        assert(x + y =~= x);
        assert(x.filter_map(give) + y.filter_map(give) =~= x.filter_map(give));
    } else {
        assert((x + y).drop_last() =~= x + y.drop_last());
        assert((x + y).last() == y.last());
        lemma_given_in_a_row(x, y.drop_last(), give);
        match give(y.last()) {
            Some(step) => {
                assert(x.filter_map(give) + (y.drop_last().filter_map(give) + seq![step])
                    =~= (x.filter_map(give) + y.drop_last().filter_map(give)) + seq![step]);
            },
            None => {},
        }
    }
}

/// Where the elements that give a step are those that `keep` keeps, `filter_map` gives
/// as many steps as `filter` keeps elements.
proof fn lemma_as_many_given_as_kept(
    s: Seq<PageInfo>,
    give: spec_fn(PageInfo) -> Option<CopyStep>,
    keep: spec_fn(PageInfo) -> bool,
)
    requires
        forall|i: int| 0 <= i < s.len() ==> (give(#[trigger] s[i]) is Some <==> keep(s[i])),
    ensures
        s.filter_map(give).len() == s.filter(keep).len(),
    decreases s.len(),
{
    reveal(Seq::filter);
    if s.len() > 0 {
        assert(give(s[s.len() - 1]) is Some <==> keep(s[s.len() - 1]));
        assert forall|i: int| 0 <= i < s.drop_last().len() implies (give(
            #[trigger] s.drop_last()[i],
        ) is Some <==> keep(s.drop_last()[i])) by {
            assert(s.drop_last()[i] == s[i]);
        }
        lemma_as_many_given_as_kept(s.drop_last(), give, keep);
    }
}

/// An extraction of a window from an ordered listing counts one page for each readable
/// region that reaches into the window: a region that is not readable, wherever it lies
/// among the others, adds nothing and stops nothing.
pub proof fn lemma_pages_counted(records: Seq<PageInfo>, begin: u64, end: u64)
    requires
        ordered(records),
        begin < end,
        first_covering(records, begin) < records.len(),
    ensures
        range_plan(records, begin, end).len() == touched(records, begin, end).len(),
{
    let give = |r: PageInfo| window_step(r@, begin, end);
    let keep = |r: PageInfo| touches(r, begin, end);
    let first = first_covering(records, begin);
    let stop = first_beyond(records, end, first);
    lemma_walked_reach(records, begin, end);
    let head = records.take(first);
    let seen = records.subrange(first, stop);
    let tail = records.skip(stop);
    assert(records =~= head + seen + tail);
    lemma_none_given(head, give);
    lemma_none_given(tail, give);
    lemma_given_in_a_row(head + seen, tail, give);
    lemma_given_in_a_row(head, seen, give);
    assert(records.filter_map(give) =~= seen.filter_map(give));
    lemma_as_many_given_as_kept(records, give, keep);
}

/// An extraction of a window from an ordered listing copies, for each readable region
/// that reaches into the window, the part of it inside the window, and nothing else.
///
/// Once the plan has run, the output holds at offset `o` the byte of memory at the
/// address `begin + o`, for every `o` whose address lies in the window and in a readable
/// region. Every other offset is a hole.
pub proof fn lemma_range_coverage(
    records: Seq<PageInfo>,
    begin: u64,
    end: u64,
    memory: spec_fn(int) -> u8,
    o: int,
)
    requires
        ordered(records),
        begin < end,
        first_covering(records, begin) < records.len(),
    ensures
        output_of(range_plan(records, begin, end), memory).dom().contains(o) <==> (0 <= o
            && begin + o < end && exists|i: int|
            0 <= i < records.len() && (#[trigger] records[i]).perms.read && records[i].begin
                <= begin + o < records[i].end),
        output_of(range_plan(records, begin, end), memory).dom().contains(o) ==> output_of(
            range_plan(records, begin, end),
            memory,
        )[o] == memory(begin + o),
{
    let plan = range_plan(records, begin, end);
    let seen = walked(records, begin, end);
    let give = |r: PageInfo| window_step(r@, begin, end);
    let first = first_covering(records, begin);
    let stop = first_beyond(records, end, first);
    lemma_walked_reach(records, begin, end);
    assert forall|k: int| 0 <= k < plan.len() implies (#[trigger] plan[k]).source
        == plan[k].target + begin by {
        let i = lemma_step_origin(seen, give, k);
    }
    lemma_output_of(plan, memory, begin as int, o);
    let image = output_of(plan, memory);
    if image.dom().contains(o) {
        let k = choose|k: int| 0 <= k < plan.len() && writes(#[trigger] plan[k], o);
        let i = lemma_step_origin(seen, give, k);
        assert(seen[i] == records[first + i]);
        assert(records[first + i].perms.read && records[first + i].begin <= begin + o
            < records[first + i].end);
    }
    if 0 <= o && begin + o < end && exists|i: int|
        0 <= i < records.len() && (#[trigger] records[i]).perms.read && records[i].begin <= begin
            + o < records[i].end {
        let i = choose|i: int|
            0 <= i < records.len() && (#[trigger] records[i]).perms.read && records[i].begin
                <= begin + o < records[i].end;
        assert(records[i].begin < end && begin < records[i].end);
        assert(first <= i < stop);
        assert(seen[i - first] == records[i]);
        let k = lemma_step_present(seen, give, i - first);
        assert(writes(plan[k], o));
    }
}

/// The readable records of a selection that are not empty, in the order of the
/// selection.
pub open spec fn readable(records: Seq<PageInfo>) -> Seq<PageInfo> {
    records.filter(|r: PageInfo| r.perms.read && r.begin < r.end)
}

/// The image of a selection keeps the layout of its regions: the plan holds one copy for
/// each readable record of the selection and no other, in ascending order of address,
/// and each copy takes the whole region to its distance from the lowest address at which
/// a record of the selection begins.
pub proof fn lemma_image_layout(records: Seq<PageInfo>)
    ensures
        ascending(image_plan(records)),
        image_plan(records).len() == readable(records).len(),
        forall|k: int|
            0 <= k < image_plan(records).len() ==> exists|i: int|
                0 <= i < records.len() && image_step(
                    (#[trigger] records[i])@,
                    lowest_begin(records),
                ) == Some(#[trigger] image_plan(records)[k]),
        forall|i: int|
            0 <= i < records.len() && image_step(
                (#[trigger] records[i])@,
                lowest_begin(records),
            ) is Some ==> image_plan(records).contains(
                image_step(records[i]@, lowest_begin(records))->0,
            ),
{
    let give = |r: PageInfo| image_step(r@, lowest_begin(records));
    let keep = |r: PageInfo| r.perms.read && r.begin < r.end;
    let steps = records.filter_map(give);
    let plan = image_plan(records);
    lemma_sort_steps(steps);
    lemma_as_many_given_as_kept(records, give, keep);
    vstd::seq_lib::to_multiset_len(plan);
    vstd::seq_lib::to_multiset_len(steps);
    assert(plan.len() == readable(records).len());
    assert forall|k: int| 0 <= k < plan.len() implies exists|i: int|
        0 <= i < records.len() && image_step((#[trigger] records[i])@, lowest_begin(records))
            == Some(#[trigger] plan[k]) by {
        assert(plan.contains(plan[k]));
        vstd::seq_lib::to_multiset_contains(plan, plan[k]);
        vstd::seq_lib::to_multiset_contains(steps, plan[k]);
        assert(steps.contains(plan[k]));
        let j = choose|j: int| 0 <= j < steps.len() && steps[j] == plan[k];
        let i = lemma_step_origin(records, give, j);
        assert(image_step(records[i]@, lowest_begin(records)) == Some(plan[k]));
    }
    assert forall|i: int|
        0 <= i < records.len() && image_step(
            (#[trigger] records[i])@,
            lowest_begin(records),
        ) is Some implies plan.contains(image_step(records[i]@, lowest_begin(records))->0) by {
        let j = lemma_step_present(records, give, i);
        assert(steps.contains(steps[j]));
        vstd::seq_lib::to_multiset_contains(plan, steps[j]);
        vstd::seq_lib::to_multiset_contains(steps, steps[j]);
    }
}

/// The image of a selection mirrors memory from the lowest address of the selection on.
///
/// Once the plan has run, the output holds at offset `o` the byte of memory at that
/// address plus `o`, for every `o` whose address lies in a readable record of the
/// selection. Every other offset is a hole.
pub proof fn lemma_image_coverage(records: Seq<PageInfo>, memory: spec_fn(int) -> u8, o: int)
    ensures
        output_of(image_plan(records), memory).dom().contains(o) <==> exists|i: int|
            0 <= i < records.len() && (#[trigger] records[i]).perms.read && records[i].begin
                <= lowest_begin(records) + o < records[i].end,
        output_of(image_plan(records), memory).dom().contains(o) ==> output_of(
            image_plan(records),
            memory,
        )[o] == memory(lowest_begin(records) + o),
{
    let plan = image_plan(records);
    let base = lowest_begin(records);
    lemma_image_layout(records);
    assert forall|k: int| 0 <= k < plan.len() implies (#[trigger] plan[k]).source
        == plan[k].target + base by {
        let i = choose|i: int|
            0 <= i < records.len() && image_step((#[trigger] records[i])@, base) == Some(plan[k]);
        lemma_lowest_begin(records, i);
    }
    lemma_output_of(plan, memory, base as int, o);
    if output_of(plan, memory).dom().contains(o) {
        let k = choose|k: int| 0 <= k < plan.len() && writes(#[trigger] plan[k], o);
        let i = choose|i: int|
            0 <= i < records.len() && image_step((#[trigger] records[i])@, base) == Some(plan[k]);
        lemma_lowest_begin(records, i);
        assert(records[i].perms.read && records[i].begin <= base + o < records[i].end);
    }
    if exists|i: int|
        0 <= i < records.len() && (#[trigger] records[i]).perms.read && records[i].begin <= base
            + o < records[i].end {
        let i = choose|i: int|
            0 <= i < records.len() && (#[trigger] records[i]).perms.read && records[i].begin
                <= base + o < records[i].end;
        lemma_lowest_begin(records, i);
        let step = image_step(records[i]@, base)->0;
        assert(plan.contains(step));
        let k = choose|k: int| 0 <= k < plan.len() && plan[k] == step;
        assert(writes(plan[k], o));
    }
}

} // verus!
