//! Comments in the order of their times.
use crate::danmaku::model::{DanmakuErrorModel, DanmakuItem, ItemModel, Result};
use crate::float_bits::SINGLE_ONE;
use crate::num::{next_u64, to_next_u64};
use crate::order::{
    comes_first, gather, keys_of, law_stable_order, law_stable_order_keeps_items, sort_by_time,
    stable_order, stable_sort, Timed,
};
use crate::text::trim_spec;
use vstd::prelude::*;

verus! {

broadcast use vstd::seq_lib::group_seq_properties;

impl Timed for DanmakuItem {
    open spec fn key(&self) -> nat {
        self.pts@
    }

    fn key_nanos(&self) -> (result: u128) {
        self.pts.as_nanos()
    }
}

/// The models of comments.
pub open spec fn items_view(items: Seq<DanmakuItem>) -> Seq<ItemModel> {
    Seq::new(items.len(), |i: int| items[i]@)
}

/// The times of comments.
pub open spec fn times_of(items: Seq<ItemModel>) -> Seq<nat> {
    Seq::new(items.len(), |i: int| items[i].pts)
}

/// The comments in the order of their times; comments of one time keep their
/// order.
pub open spec fn sorted_items(items: Seq<ItemModel>) -> Seq<ItemModel> {
    gather(items, stable_order(times_of(items)))
}

/// Whether comments are in the order of their times.
pub open spec fn ascends(items: Seq<ItemModel>) -> bool {
    forall|i: int, j: int|
        0 <= i < j < items.len() ==> (#[trigger] items[i]).pts <= (#[trigger] items[j]).pts
}

/// Some comments and those that are taken of more. One without id gets the
/// number of its place.
pub open spec fn accepted(base: Seq<ItemModel>, items: Seq<ItemModel>) -> Seq<ItemModel>
    decreases items.len(),
{
    if items.len() == 0 {
        base
    } else {
        let before = accepted(base, items.drop_last());
        match items.last().normal(next_u64(before.len())) {
            Some(item) => before.push(item),
            None => before,
        }
    }
}

/// Sorted comments are in the order of their times, and are those before, each as
/// often.
pub proof fn law_sorted_items_ascend(items: Seq<ItemModel>)
    ensures
        ascends(sorted_items(items)),
        sorted_items(items).len() == items.len(),
        sorted_items(items).to_multiset() == items.to_multiset(),
        forall|i: int| 0 <= i < items.len() ==> items.contains(#[trigger] sorted_items(items)[i]),
{
    let keys = times_of(items);
    let order = stable_order(keys);
    law_stable_order(keys);
    law_stable_order_keeps_items(items, keys);
    assert forall|i: int, j: int| 0 <= i < j < items.len() implies (#[trigger] sorted_items(
        items,
    )[i]).pts <= (#[trigger] sorted_items(items)[j]).pts by {
        assert(comes_first(keys, order[i], order[j]));
        assert(0 <= order[i] < keys.len() && 0 <= order[j] < keys.len());
    }
    assert forall|i: int| 0 <= i < items.len() implies items.contains(
        #[trigger] sorted_items(items)[i],
    ) by {
        assert(0 <= order[i] < keys.len());
        assert(items[order[i]] == sorted_items(items)[i]);
    }
}

/// Sorts comments by their times.
pub fn sort_items(items: Vec<DanmakuItem>) -> (result: Vec<DanmakuItem>)
    ensures
        items_view(result@) == sorted_items(items_view(items@)),
{
    proof {
        let order = stable_order(keys_of(items@));
        law_stable_order(keys_of(items@));
        assert(keys_of(items@) =~= times_of(items_view(items@)));
        assert(forall|i: int| 0 <= i < order.len() ==> 0 <= #[trigger] order[i] < items@.len());
        assert(items_view(stable_sort(items@)) =~= sorted_items(items_view(items@)));
    }
    sort_by_time(items)
}

/// Comments in the order of their times.
#[derive(Debug, Clone, PartialEq, Eq)]
pub struct DanmakuTimeline {
    items: Vec<DanmakuItem>,
}

impl View for DanmakuTimeline {
    type V = Seq<ItemModel>;

    closed spec fn view(&self) -> Seq<ItemModel> {
        items_view(self.items@)
    }
}

impl Default for DanmakuTimeline {
    fn default() -> (result: Self)
        ensures
            result@ == Seq::<ItemModel>::empty(),
    {
        let items: Vec<DanmakuItem> = Vec::new();
        assert(items_view(items@) =~= Seq::<ItemModel>::empty());
        DanmakuTimeline { items }
    }
}

impl DanmakuTimeline {
    /// The timeline of comments.
    pub fn new(items: Vec<DanmakuItem>) -> (result: Result<Self>)
        ensures
            result is Ok,
            result->Ok_0@ == sorted_items(accepted(Seq::empty(), items_view(items@))),
            ascends(result->Ok_0@),
    {
        let mut timeline = DanmakuTimeline::default();
        match timeline.extend(items) {
            Ok(()) => Ok(timeline),
            Err(error) => Err(error),
        }
    }

    /// The timeline of comments that need no more than their order.
    pub fn in_time_order(items: Vec<DanmakuItem>) -> (result: Self)
        ensures
            result@ == sorted_items(items_view(items@)),
            ascends(result@),
    {
        proof {
            law_sorted_items_ascend(items_view(items@));
        }
        DanmakuTimeline { items: sort_items(items) }
    }

    /// Adds a comment. One that shows nothing is refused.
    pub fn push(&mut self, item: DanmakuItem) -> (result: Result<()>)
        ensures
            match item@.normal(next_u64(old(self)@.len())) {
                Some(normal) => result is Ok && final(self)@ == sorted_items(
                    old(self)@.push(normal),
                ),
                None => result is Err && result->Err_0@ == DanmakuErrorModel::MissingText && final(
                    self
                )@ == old(self)@,
            },
            result is Ok ==> ascends(final(self)@),
    {
        let fallback: u64 = to_next_u64(self.items.len());
        match item.normalized(fallback) {
            Ok(normal) => {
                let mut items: Vec<DanmakuItem> = Vec::new();
                items.append(&mut self.items);
                items.push(normal);
                assert(items_view(items@) =~= old(self)@.push(normal@));
                proof {
                    law_sorted_items_ascend(items_view(items@));
                }
                self.items = sort_items(items);
                Ok(())
            },
            Err(error) => Err(error),
        }
    }

    /// Adds comments. Those that show nothing are passed over.
    pub fn extend(&mut self, items: Vec<DanmakuItem>) -> (result: Result<()>)
        ensures
            result is Ok,
            final(self)@ == sorted_items(accepted(old(self)@, items_view(items@))),
            ascends(final(self)@),
    {
        let mut all: Vec<DanmakuItem> = Vec::new();
        all.append(&mut self.items);
        let ghost models = items_view(items@);
        assert(items_view(all@) =~= old(self)@);
        assert(models.take(0) =~= Seq::<ItemModel>::empty());
        for item in it: items
            invariant
                models == items_view(it.seq()),
                items_view(all@) == accepted(old(self)@, models.take(it.index())),
        {
            let ghost n = it.index();
            assert(models.take(n + 1).drop_last() =~= models.take(n));
            assert(models.take(n + 1).last() == item@);
            assert(items_view(all@).len() == all@.len());
            let fallback: u64 = to_next_u64(all.len());
            let ghost before = items_view(all@);
            match item.normalized(fallback) {
                Ok(normal) => {
                    all.push(normal);
                    assert(items_view(all@) =~= before.push(normal@));
                },
                Err(_) => {},
            }
        }
        assert(models.take(models.len() as int) =~= models);
        proof {
            law_sorted_items_ascend(items_view(all@));
        }
        self.items = sort_items(all);
        Ok(())
    }

    /// The comments.
    pub fn items(&self) -> (result: &[DanmakuItem])
        ensures
            items_view(result@) == self@,
    {
        self.items.as_slice()
    }

    /// Whether there are no comments.
    pub fn is_empty(&self) -> (result: bool)
        ensures
            result <==> self@.len() == 0,
    {
        self.items.len() == 0
    }

    /// The number of comments.
    pub fn len(&self) -> (result: usize)
        ensures
            result == self@.len(),
    {
        self.items.len()
    }

    /// Another timeline of the same comments.
    pub fn duplicate(&self) -> (result: Self)
        ensures
            result@ == self@,
    {
        let mut items: Vec<DanmakuItem> = Vec::new();
        let mut i: usize = 0;
        assert(items_view(items@) =~= self@.take(0));
        while i < self.items.len()
            invariant
                i <= self.items@.len(),
                items_view(items@) == self@.take(i as int),
            decreases self.items@.len() - i,
        {
            let item = self.items[i].duplicate();
            let ghost before = items_view(items@);
            items.push(item);
            assert(items_view(items@) =~= before.push(item@));
            i += 1;
            assert(items_view(items@) =~= self@.take(i as int));
        }
        assert(self@.take(i as int) =~= self@);
        DanmakuTimeline { items }
    }
}

/// Comments are taken one by one, each behind those before it; a comment that shows
/// nothing is not taken.
pub proof fn law_comments_are_taken_in_order(
    base: Seq<ItemModel>,
    items: Seq<ItemModel>,
    item: ItemModel,
)
    ensures
        accepted(base, Seq::empty()) == base,
        match item.normal(next_u64(accepted(base, items).len())) {
            Some(normal) => accepted(base, items.push(item)) == accepted(base, items).push(normal),
            None => accepted(base, items.push(item)) == accepted(base, items),
        },
{
    assert(items.push(item).drop_last() =~= items);
}

/// A comment is taken as it is, but for an id where it has none, a size of at least
/// one, and an opacity between zero and one.
pub proof fn law_taken_comments_are_the_same(item: ItemModel, fallback_id: u64)
    ensures
        item.normal(fallback_id) is None <==> trim_spec(item.text).len() == 0,
        item.normal(fallback_id) matches Some(normal) ==> {
            &&& normal.pts == item.pts
            &&& normal.text == item.text
            &&& normal.mode == item.mode
            &&& normal.color == item.color
            &&& normal.is_self == item.is_self
            &&& item.id != 0 ==> normal.id == item.id
            &&& item.id == 0 ==> normal.id == fallback_id
            &&& normal.font_size.rank() >= SINGLE_ONE
            &&& item.font_size.is_finite() && item.font_size.rank() >= SINGLE_ONE
                ==> normal.font_size == item.font_size
            &&& 0 <= normal.opacity.rank() <= SINGLE_ONE
            &&& item.opacity.is_finite() && 0 <= item.opacity.rank() <= SINGLE_ONE
                ==> normal.opacity == item.opacity
            &&& !item.opacity.is_finite() ==> normal.opacity.bits == SINGLE_ONE
        },
{
}

} // verus!
