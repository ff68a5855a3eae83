//! The listing of candidates, grouped by the book they come from.

use vstd::prelude::*;
use vstd::string::StringExecFns;
use crate::document::{Reference, Source};
use crate::grouping::{
    is_grouping, is_run_partition, joined, key_runs, keys_view, lemma_joined_prefix,
};
use crate::resolver::{clone_line, line_view, lines_view, SummaryLineView};
use crate::version::Version;

verus! {

/// The full title of a source.
pub open spec fn source_name(source: Source) -> Seq<char> {
    match source {
        Source::BCP1979 => "The Book of Common Prayer (1979)"@,
        Source::EOW1 => "Enriching Our Worship 1"@,
        Source::EOW2 => "Enriching Our Worship 2"@,
        Source::LFF2018 => "Lesser Feasts and Fasts (2018)"@,
    }
}

/// The full title of a source.
pub fn long_name(source: Source) -> (r: &'static str)
    ensures
        r@ == source_name(source),
{
    match source {
        Source::BCP1979 => "The Book of Common Prayer (1979)",
        Source::EOW1 => "Enriching Our Worship 1",
        Source::EOW2 => "Enriching Our Worship 2",
        Source::LFF2018 => "Lesser Feasts and Fasts (2018)",
    }
}

/// No two sources share a title.
pub proof fn lemma_source_names_differ(a: Source, b: Source)
    ensures
        source_name(a) == source_name(b) <==> a == b,
{
    reveal_strlit("The Book of Common Prayer (1979)");
    reveal_strlit("Enriching Our Worship 1");
    reveal_strlit("Enriching Our Worship 2");
    reveal_strlit("Lesser Feasts and Fasts (2018)");
    let bcp = "The Book of Common Prayer (1979)"@;
    let eow1 = "Enriching Our Worship 1"@;
    let eow2 = "Enriching Our Worship 2"@;
    let lff = "Lesser Feasts and Fasts (2018)"@;
    assert(bcp.len() == 32 && eow1.len() == 23 && eow2.len() == 23 && lff.len() == 30);
    assert(eow1[22] == '1' && eow2[22] == '2');
}

/// The source that a line of a listing comes from, if it names one.
pub open spec fn line_source(line: SummaryLineView) -> Option<Source> {
    match line.0 {
        Some(reference) => Some(reference.source),
        None => None,
    }
}

/// The source that a line of a listing comes from, if it names one.
pub fn source_of(line: &(Option<Reference>, Version, Option<String>, String)) -> (r: Option<Source>)
    ensures
        r == line_source(line_view(*line)),
{
    match line.0 {
        Some(reference) => Some(reference.source),
        None => None,
    }
}

/// A group of a listing: the source, and the lines under it.
pub type GroupView = (Option<Source>, Seq<SummaryLineView>);

/// The values of the groups of a listing.
pub open spec fn groups_view(
    groups: Vec<(Option<Source>, Vec<(Option<Reference>, Version, Option<String>, String)>)>,
) -> Seq<GroupView> {
    Seq::new(groups.len() as nat, |i: int| (groups[i].0, lines_view(groups[i].1)))
}

/// The sources that the groups stand under.
pub open spec fn group_heads(groups: Seq<GroupView>) -> Seq<Option<Source>> {
    Seq::new(groups.len(), |g: int| groups[g].0)
}

/// The lines of each group.
pub open spec fn group_parts(groups: Seq<GroupView>) -> Seq<Seq<SummaryLineView>> {
    Seq::new(groups.len(), |g: int| groups[g].1)
}

/// Whether `groups` is the listing `lines` grouped by source: the groups hold
/// the lines in their order, none is empty, the lines of a group all come
/// from the group's source, and neighbouring groups differ in their source.
pub open spec fn is_grouping_by_source(lines: Seq<SummaryLineView>, groups: Seq<GroupView>) -> bool {
    is_grouping(
        lines,
        |line: SummaryLineView| line_source(line),
        group_heads(groups),
        group_parts(groups),
    )
}

/// The key by which the lines are grouped: the title of the line's source.
fn source_key(line: &(Option<Reference>, Version, Option<String>, String)) -> (r: Option<String>)
    ensures
        match line_source(line_view(*line)) {
            Some(source) => r.is_some() && r.unwrap()@ == source_name(source),
            None => r.is_none(),
        },
{
    match source_of(line) {
        Some(source) => Some(String::from_str(long_name(source))),
        None => None,
    }
}

/// Groups a listing of candidates by source: lines that follow one another
/// and come from the same source form one group.
pub fn summary_groups(lines: &Vec<(Option<Reference>, Version, Option<String>, String)>) -> (r: Vec<
    (Option<Source>, Vec<(Option<Reference>, Version, Option<String>, String)>),
>)
    ensures
        is_grouping_by_source(lines_view(*lines), groups_view(r)),
{
    let ghost all = lines_view(*lines);
    let mut keys: Vec<Option<String>> = Vec::new();
    let mut i: usize = 0;
    while i < lines.len()
        invariant
            i <= lines.len(),
            keys.len() == i,
            all == lines_view(*lines),
            forall|k: int|
                0 <= k < i ==> match line_source(all[k]) {
                    Some(source) => (#[trigger] keys[k]).is_some() && keys[k].unwrap()@
                        == source_name(source),
                    None => keys[k].is_none(),
                },
        decreases lines.len() - i,
    {
        keys.push(source_key(&lines[i]));
        i += 1;
    }
    let runs = key_runs(&keys);
    let ghost kv = keys_view(keys@);
    proof {
        assert forall|a: int, b: int|
            0 <= a < lines.len() && 0 <= b < lines.len() implies (kv[a] == kv[b]
            <==> line_source(all[a]) == line_source(all[b])) by {
            assert(keys[a].is_some() || keys[a].is_none());
            assert(keys[b].is_some() || keys[b].is_none());
            if line_source(all[a]).is_some() && line_source(all[b]).is_some() {
                lemma_source_names_differ(line_source(all[a]).unwrap(), line_source(all[b]).unwrap());
            }
        }
    }
    let mut groups: Vec<(Option<Source>, Vec<(Option<Reference>, Version, Option<String>, String)>)> =
        Vec::new();
    let mut g: usize = 0;
    assert(joined(group_parts(groups_view(groups)), 0) =~= all.take(0));
    while g < runs.len()
        invariant
            g <= runs.len(),
            groups.len() == g,
            all == lines_view(*lines),
            keys.len() == lines.len(),
            kv == keys_view(keys@),
            is_run_partition(kv, runs@),
            forall|a: int, b: int|
                0 <= a < lines.len() && 0 <= b < lines.len() ==> (kv[a] == kv[b] <==> line_source(
                    all[a],
                ) == line_source(all[b])),
            joined(group_parts(groups_view(groups)), g as int) == all.take(
                if g == 0 {
                    0
                } else {
                    runs[g - 1].1 as int
                },
            ),
            forall|k: int|
                0 <= k < g ==> (#[trigger] groups_view(groups)[k]).1 == all.subrange(
                    runs[k].0 as int,
                    runs[k].1 as int,
                ) && groups_view(groups)[k].0 == line_source(all[runs[k].0 as int]),
        decreases runs.len() - g,
    {
        let (start, end) = runs[g];
        assert(runs[g as int].0 < runs[g as int].1 <= keys.len());
        assert(g > 0 ==> runs[g as int].0 == runs[g - 1].1);
        let source = source_of(&lines[start]);
        let mut members: Vec<(Option<Reference>, Version, Option<String>, String)> = Vec::new();
        let mut j: usize = start;
        while j < end
            invariant
                start <= j <= end <= lines.len(),
                members.len() == j - start,
                all == lines_view(*lines),
                forall|k: int| 0 <= k < j - start ==> line_view(members[k]) == all[start + k],
            decreases end - j,
        {
            members.push(clone_line(&lines[j]));
            j += 1;
        }
        assert(lines_view(members) =~= all.subrange(start as int, end as int));
        let ghost before = groups_view(groups);
        groups.push((source, members));
        proof {
            let after = groups_view(groups);
            assert(after =~= before.push((source, all.subrange(start as int, end as int))));
            lemma_joined_prefix(group_parts(after), group_parts(before), g as int);
            assert(all.take(start as int) + all.subrange(start as int, end as int) =~= all.take(
                end as int,
            ));
        }
        g += 1;
    }
    proof {
        let gv = groups_view(groups);
        if runs.len() == 0 {
            assert(all.take(0) =~= all);
        } else {
            assert(all.take(lines.len() as int) =~= all);
        }
        let heads = group_heads(gv);
        let parts = group_parts(gv);
        assert forall|a: int, k: int| 0 <= a < parts.len() && 0 <= k < parts[a].len() implies line_source(
            #[trigger] parts[a][k],
        ) == heads[a] by {
            assert(gv[a].1 == all.subrange(runs[a].0 as int, runs[a].1 as int));
            let j = runs[a].0 + k;
            assert(kv[j] == kv[runs[a].0 as int]);
        }
        assert forall|b: int, a: int| 0 <= b && a == b + 1 && a < parts.len() implies #[trigger] heads[b]
            != #[trigger] heads[a] by {
            assert(gv[a].1 == all.subrange(runs[a].0 as int, runs[a].1 as int));
            assert(gv[b].1 == all.subrange(runs[b].0 as int, runs[b].1 as int));
            assert(runs[a].0 < runs[a].1 <= keys.len());
            assert(runs[b].0 < runs[b].1 <= keys.len());
            assert(kv[runs[a].0 as int] != kv[runs[a].0 - 1]);
            assert(runs[a].0 == runs[b].1);
            assert(kv[runs[b].1 - 1] == kv[runs[b].0 as int]);
        }
        assert forall|a: int| 0 <= a < parts.len() implies (#[trigger] parts[a]).len() >= 1 by {
            assert(gv[a].1 == all.subrange(runs[a].0 as int, runs[a].1 as int));
        }
    }
    groups
}

} // verus!
