//! Partitioning the decoded records by their group key.

use vstd::prelude::*;
use vstd::multiset::Multiset;
use crate::record::{key_of, Record, RecordView};

verus! {

/// One group of the partition: the records that share a key, in input
/// order.
pub struct Group {
    pub key: String,
    pub records: Vec<Record>,
}

/// The mathematical value of a Group.
pub struct GroupView {
    pub key: Seq<char>,
    pub records: Seq<RecordView>,
}

impl View for Group {
    type V = GroupView;

    open spec fn view(&self) -> GroupView {
        GroupView { key: self.key@, records: self.records.deep_view() }
    }
}

impl DeepView for Group {
    type V = GroupView;

    open spec fn deep_view(&self) -> GroupView {
        self.view()
    }
}

/// The index of the group carrying the key, or -1 when no group does.
pub open spec fn find_group(gs: Seq<GroupView>, k: Seq<char>) -> int
    decreases gs.len(),
{
    if gs.len() == 0 {
        -1
    } else if gs[0].key == k {
        0
    } else {
        let r = find_group(gs.drop_first(), k);
        if r < 0 {
            -1
        } else {
            r + 1
        }
    }
}

/// Adds one record to the partition: appended to its key's group when one
/// exists, opening a new last group otherwise.
pub open spec fn insert_record(gs: Seq<GroupView>, r: RecordView) -> Seq<GroupView> {
    let k = key_of(r);
    let i = find_group(gs, k);
    if i < 0 {
        gs.push(GroupView { key: k, records: seq![r] })
    } else {
        gs.update(i, GroupView { key: k, records: gs[i].records.push(r) })
    }
}

/// The partition of the records by key: groups appear in the order of
/// their key's first occurrence, and within a group the records keep
/// their input order.
pub open spec fn group_spec(rs: Seq<RecordView>) -> Seq<GroupView>
    decreases rs.len(),
{
    if rs.len() == 0 {
        Seq::empty()
    } else {
        insert_record(group_spec(rs.drop_last()), rs.last())
    }
}

proof fn lemma_find_group_props(gs: Seq<GroupView>, k: Seq<char>)
    ensures
        -1 <= find_group(gs, k) < gs.len(),
        find_group(gs, k) >= 0 ==> gs[find_group(gs, k)].key == k,
        find_group(gs, k) >= 0 ==> forall|m: int|
            0 <= m < find_group(gs, k) ==> gs[m].key != k,
        find_group(gs, k) == -1 ==> forall|m: int| 0 <= m < gs.len() ==> gs[m].key != k,
    decreases gs.len(),
{
    if gs.len() > 0 {
        let t = gs.drop_first();
        lemma_find_group_props(t, k);
        if gs[0].key != k {
            let r = find_group(t, k);
            if r >= 0 {
                assert forall|m: int| 0 <= m < find_group(gs, k) implies gs[m].key != k by {
                    if m > 0 {
                        assert(t[m - 1].key != k);
                    }
                }
            } else {
                assert forall|m: int| 0 <= m < gs.len() implies gs[m].key != k by {
                    if m > 0 {
                        assert(t[m - 1].key != k);
                    }
                }
            }
        }
    }
}

proof fn lemma_find_group_present(gs: Seq<GroupView>, k: Seq<char>, j: int)
    requires
        0 <= j < gs.len(),
        gs[j].key == k,
        forall|m: int| 0 <= m < j ==> gs[m].key != k,
    ensures
        find_group(gs, k) == j,
    decreases j,
{
    if j > 0 {
        let t = gs.drop_first();
        assert(forall|m: int| 0 <= m < j - 1 ==> #[trigger] t[m].key != k);
        lemma_find_group_present(t, k, j - 1);
    }
}

proof fn lemma_find_group_absent(gs: Seq<GroupView>, k: Seq<char>)
    requires
        forall|m: int| 0 <= m < gs.len() ==> gs[m].key != k,
    ensures
        find_group(gs, k) == -1,
    decreases gs.len(),
{
    if gs.len() > 0 {
        lemma_find_group_absent(gs.drop_first(), k);
    }
}

proof fn lemma_find_group_push(gs: Seq<GroupView>, g: GroupView, k: Seq<char>)
    ensures
        find_group(gs, k) >= 0 ==> find_group(gs.push(g), k) == find_group(gs, k),
        find_group(gs, k) == -1 && g.key == k ==> find_group(gs.push(g), k) == gs.len(),
        find_group(gs, k) == -1 && g.key != k ==> find_group(gs.push(g), k) == -1,
    decreases gs.len(),
{
    if gs.len() == 0 {
        assert(gs.push(g)[0] == g);
        assert(gs.push(g).drop_first() =~= Seq::<GroupView>::empty());
        assert(find_group(Seq::<GroupView>::empty(), k) == -1);
    } else {
        let t = gs.drop_first();
        assert(gs.push(g)[0] == gs[0]);
        assert(gs.push(g).drop_first() =~= t.push(g));
        lemma_find_group_props(t, k);
        lemma_find_group_push(t, g, k);
        if find_group(gs, k) == -1 && g.key != k {
            assert(gs[0].key != k);
            assert(find_group(t, k) == -1);
            assert(find_group(t.push(g), k) == -1);
        }
    }
}

proof fn lemma_find_group_same_keys(gs1: Seq<GroupView>, gs2: Seq<GroupView>, k: Seq<char>)
    requires
        gs1.len() == gs2.len(),
        forall|m: int| 0 <= m < gs1.len() ==> gs1[m].key == gs2[m].key,
    ensures
        find_group(gs1, k) == find_group(gs2, k),
    decreases gs1.len(),
{
    if gs1.len() > 0 {
        let t1 = gs1.drop_first();
        let t2 = gs2.drop_first();
        assert(forall|m: int| 0 <= m < t1.len() ==> #[trigger] t1[m].key == t2[m].key);
        lemma_find_group_same_keys(t1, t2, k);
    }
}

proof fn lemma_filter_none<A>(s: Seq<A>, pred: spec_fn(A) -> bool)
    requires
        forall|i: int| 0 <= i < s.len() ==> !pred(s[i]),
    ensures
        s.filter(pred) == Seq::<A>::empty(),
    decreases s.len(),
{
    reveal(Seq::filter);
    if s.len() > 0 {
        let t = s.drop_last();
        assert(forall|i: int| 0 <= i < t.len() ==> !pred(#[trigger] t[i]));
        lemma_filter_none(t, pred);
    }
}

proof fn lemma_group_spec_props(rs: Seq<RecordView>)
    ensures
        ({
            let gs = group_spec(rs);
            &&& forall|i: int, j: int| 0 <= i < j < gs.len() ==> gs[i].key != gs[j].key
            &&& forall|i: int|
                0 <= i < gs.len() ==> #[trigger] gs[i].records == rs.filter(
                    |r: RecordView| key_of(r) == gs[i].key,
                )
            &&& forall|i: int|
                0 <= i < rs.len() ==> find_group(gs, key_of(#[trigger] rs[i])) >= 0
        }),
    decreases rs.len(),
{
    reveal(Seq::filter);
    if rs.len() == 0 {
    } else {
        let rs2 = rs.drop_last();
        let r = rs.last();
        let k = key_of(r);
        lemma_group_spec_props(rs2);
        let gs2 = group_spec(rs2);
        let gs = group_spec(rs);
        lemma_find_group_props(gs2, k);
        let fidx = find_group(gs2, k);
        assert(rs2.push(r) =~= rs);
        if fidx < 0 {
            let g = GroupView { key: k, records: seq![r] };
            assert(gs == gs2.push(g));
            // No record of rs2 carries key k, else its group would exist.
            assert forall|i: int| 0 <= i < rs2.len() implies key_of(#[trigger] rs2[i]) != k by {
                if key_of(rs2[i]) == k {
                    assert(find_group(gs2, key_of(rs2[i])) >= 0);
                }
            }
            assert forall|i: int| 0 <= i < gs.len() implies #[trigger] gs[i].records
                == rs.filter(|x: RecordView| key_of(x) == gs[i].key) by {
                let pred = |x: RecordView| key_of(x) == gs[i].key;
                if i < gs2.len() {
                    assert(gs[i] == gs2[i]);
                    assert(gs2[i].key != k);
                    assert(!pred(r));
                    assert(rs.filter(pred) == rs2.filter(pred));
                } else {
                    assert(gs[i] == g);
                    assert(forall|m: int| 0 <= m < rs2.len() ==> !pred(#[trigger] rs2[m]));
                    lemma_filter_none(rs2, pred);
                    assert(pred(r));
                    assert(rs.filter(pred) =~= seq![r]);
                }
            }
            assert forall|i: int| 0 <= i < rs.len() implies find_group(
                gs,
                key_of(#[trigger] rs[i]),
            ) >= 0 by {
                lemma_find_group_push(gs2, g, key_of(rs[i]));
                if i < rs2.len() {
                    assert(find_group(gs2, key_of(rs2[i])) >= 0);
                } else {
                    assert(rs[i] == r);
                }
            }
        } else {
            let g = GroupView { key: k, records: gs2[fidx].records.push(r) };
            assert(gs == gs2.update(fidx, g));
            assert(forall|m: int|
                0 <= m < gs.len() ==> #[trigger] gs[m].key == gs2[m].key);
            assert forall|i: int| 0 <= i < gs.len() implies #[trigger] gs[i].records
                == rs.filter(|x: RecordView| key_of(x) == gs[i].key) by {
                let pred = |x: RecordView| key_of(x) == gs[i].key;
                if i != fidx {
                    assert(gs[i] == gs2[i]);
                    assert(gs2[i].key != k);
                    assert(!pred(r));
                    assert(rs.filter(pred) == rs2.filter(pred));
                } else {
                    assert(gs[i].key == k);
                    assert(pred(r));
                    assert(gs2[fidx].records == rs2.filter(pred));
                    assert(rs.filter(pred) == rs2.filter(pred).push(r));
                }
            }
            assert forall|i: int| 0 <= i < rs.len() implies find_group(
                gs,
                key_of(#[trigger] rs[i]),
            ) >= 0 by {
                lemma_find_group_same_keys(gs2, gs, key_of(rs[i]));
                if i < rs2.len() {
                    assert(find_group(gs2, key_of(rs2[i])) >= 0);
                } else {
                    assert(rs[i] == r);
                }
            }
        }
    }
}

/// Every group key appears exactly once: the groups' keys are pairwise
/// distinct.
pub proof fn lemma_group_keys_distinct(rs: Seq<RecordView>)
    ensures
        forall|i: int, j: int|
            0 <= i < j < group_spec(rs).len() ==> group_spec(rs)[i].key != group_spec(
                rs,
            )[j].key,
{
    lemma_group_spec_props(rs);
}

/// A group holds exactly the input records that carry its key, in their
/// input order.
pub proof fn lemma_group_contents(rs: Seq<RecordView>)
    ensures
        forall|i: int|
            0 <= i < group_spec(rs).len() ==> #[trigger] group_spec(rs)[i].records
                == rs.filter(|r: RecordView| key_of(r) == group_spec(rs)[i].key),
{
    lemma_group_spec_props(rs);
}

/// Every input record belongs to a group: none is dropped.
pub proof fn lemma_group_covers(rs: Seq<RecordView>)
    ensures
        forall|i: int|
            0 <= i < rs.len() ==> find_group(group_spec(rs), key_of(#[trigger] rs[i])) >= 0,
{
    lemma_group_spec_props(rs);
}

/// The records of all groups, taken together as one multiset.
pub open spec fn groups_multiset(gs: Seq<GroupView>) -> Multiset<RecordView>
    decreases gs.len(),
{
    if gs.len() == 0 {
        Multiset::empty()
    } else {
        groups_multiset(gs.drop_last()).add(gs.last().records.to_multiset())
    }
}

proof fn lemma_groups_multiset_push(gs: Seq<GroupView>, g: GroupView)
    ensures
        groups_multiset(gs.push(g)) == groups_multiset(gs).add(g.records.to_multiset()),
{
    assert(gs.push(g).drop_last() =~= gs);
    assert(gs.push(g).last() == g);
}

proof fn lemma_groups_multiset_update_push(gs: Seq<GroupView>, i: int, g: GroupView, r: RecordView)
    requires
        0 <= i < gs.len(),
        g.records == gs[i].records.push(r),
    ensures
        groups_multiset(gs.update(i, g)) =~= groups_multiset(gs).insert(r),
    decreases gs.len(),
{
    broadcast use vstd::seq_lib::group_to_multiset_ensures;

    let gs2 = gs.update(i, g);
    if i == gs.len() - 1 {
        assert(gs2.drop_last() =~= gs.drop_last());
        assert(gs2.last() == g);
        assert(g.records.to_multiset() =~= gs[i].records.to_multiset().insert(r));
    } else {
        assert(gs2.drop_last() =~= gs.drop_last().update(i, g));
        assert(gs2.last() == gs.last());
        lemma_groups_multiset_update_push(gs.drop_last(), i, g, r);
    }
}

/// Grouping is a partition: the groups' records, taken together as a
/// multiset, are exactly the input records.
pub proof fn lemma_group_partition(rs: Seq<RecordView>)
    ensures
        groups_multiset(group_spec(rs)) =~= rs.to_multiset(),
    decreases rs.len(),
{
    broadcast use vstd::seq_lib::group_to_multiset_ensures;

    if rs.len() == 0 {
        assert(rs.to_multiset() =~= Multiset::<RecordView>::empty());
    } else {
        let rs2 = rs.drop_last();
        let r = rs.last();
        let k = key_of(r);
        lemma_group_partition(rs2);
        let gs2 = group_spec(rs2);
        lemma_find_group_props(gs2, k);
        let fidx = find_group(gs2, k);
        assert(rs2.push(r) =~= rs);
        if fidx < 0 {
            let g = GroupView { key: k, records: seq![r] };
            lemma_groups_multiset_push(gs2, g);
            assert(seq![r] =~= Seq::<RecordView>::empty().push(r));
            assert(g.records.to_multiset() =~= Multiset::<RecordView>::empty().insert(r));
        } else {
            let g = GroupView { key: k, records: gs2[fidx].records.push(r) };
            lemma_groups_multiset_update_push(gs2, fidx, g, r);
        }
    }
}

/// Partitions the records by their group key, keeping input order inside
/// each group and opening groups in first-occurrence order.
pub fn group_records(records: Vec<Record>) -> (groups: Vec<Group>)
    ensures
        groups.deep_view() == group_spec(records.deep_view()),
{
    let ghost rs = records.deep_view();
    let mut groups: Vec<Group> = Vec::new();
    let mut i: usize = 0;
    proof {
        assert(rs.take(0) =~= Seq::<RecordView>::empty());
        assert(groups.deep_view() =~= group_spec(rs.take(0)));
    }
    while i < records.len()
        invariant
            0 <= i <= records@.len(),
            rs == records.deep_view(),
            rs.len() == records@.len(),
            groups.deep_view() == group_spec(rs.take(i as int)),
        decreases records@.len() - i,
    {
        proof {
            assert(rs.take(i + 1).drop_last() =~= rs.take(i as int));
            assert(rs.take(i + 1).last() == rs[i as int]);
            assert(rs[i as int] == records@[i as int]@);
        }
        let ghost gs = groups.deep_view();
        let r = records[i].duplicate();
        let k = r.key();
        let glen = groups.len();
        let mut idx: usize = glen;
        let mut j: usize = 0;
        while j < glen
            invariant
                0 <= j <= glen,
                glen == groups@.len(),
                gs == groups.deep_view(),
                gs.len() == groups@.len(),
                idx == glen || (idx < j && gs[idx as int].key == k@ && forall|m: int|
                    0 <= m < idx ==> gs[m].key != k@),
                idx == glen ==> forall|m: int| 0 <= m < j ==> gs[m].key != k@,
            decreases glen - j,
        {
            if idx == glen && groups[j].key == k {
                idx = j;
            }
            j = j + 1;
        }
        if idx < glen {
            proof {
                lemma_find_group_present(gs, k@, idx as int);
            }
            let mut g = groups.remove(idx);
            let ghost recs_pre = g.records.deep_view();
            g.records.push(r);
            proof {
                assert(g.records.deep_view() =~= recs_pre.push(r.deep_view()));
            }
            groups.insert(idx, g);
            proof {
                assert(groups.deep_view() =~= insert_record(gs, rs[i as int]));
            }
        } else {
            proof {
                lemma_find_group_absent(gs, k@);
            }
            let mut members: Vec<Record> = Vec::new();
            members.push(r);
            proof {
                assert(members.deep_view() =~= seq![rs[i as int]]);
            }
            groups.push(Group { key: k, records: members });
            proof {
                assert(groups.deep_view() =~= insert_record(gs, rs[i as int]));
            }
        }
        i = i + 1;
    }
    proof {
        assert(rs.take(rs.len() as int) =~= rs);
    }
    groups
}

} // verus!
