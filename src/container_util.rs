use vstd::prelude::*;
use vstd::std_specs::iter::IteratorSpec;

verus! {

/// The elements of `v` whose positions are not listed in `to_be_deleted`, in order.
pub open spec fn kept<T>(v: Seq<T>, to_be_deleted: Seq<usize>) -> Seq<T>
    decreases v.len(),
{
    if v.len() == 0 {
        Seq::empty()
    } else {
        let rest = kept(v.drop_last(), to_be_deleted);
        if to_be_deleted.contains((v.len() - 1) as usize) {
            rest
        } else {
            rest.push(v.last())
        }
    }
}

fn lists(to_be_deleted: &[usize], idx: usize) -> (r: bool)
    ensures
        r == to_be_deleted@.contains(idx),
{
    let mut i: usize = 0;
    while i < to_be_deleted.len()
        invariant
            i <= to_be_deleted@.len(),
            forall|k: int| 0 <= k < i ==> to_be_deleted@[k] != idx,
        decreases to_be_deleted@.len() - i,
    {
        if to_be_deleted[i] == idx {
            return true;
        }
        i = i + 1;
    }
    false
}

/// Drops the elements at the positions listed in `to_be_deleted`, keeping the order of
/// the others.
pub fn remove_indices<T: Default>(v: Vec<T>, to_be_deleted: &[usize]) -> (r: Vec<T>)
    ensures
        r@ == kept(v@, to_be_deleted@),
{
    let ghost orig = v@;
    let n = v.len();
    let mut rest = v;
    let mut reversed: Vec<T> = Vec::new();
    while rest.len() > 0
        invariant
            n == orig.len(),
            reversed@.len() + rest@.len() == n,
            rest@ == orig.subrange(0, rest@.len() as int),
            forall|j: int| 0 <= j < reversed@.len() ==> #[trigger] reversed@[j] == orig[n - 1 - j],
        decreases rest@.len(),
    {
        let x = rest.pop().unwrap();
        reversed.push(x);
    }
    let mut out: Vec<T> = Vec::new();
    let mut i: usize = 0;
    while reversed.len() > 0
        invariant
            n == orig.len(),
            i + reversed@.len() == n,
            forall|j: int| 0 <= j < reversed@.len() ==> #[trigger] reversed@[j] == orig[n - 1 - j],
            out@ == kept(orig.subrange(0, i as int), to_be_deleted@),
        decreases reversed@.len(),
    {
        let x = reversed.pop().unwrap();
        proof {
            assert(orig.subrange(0, i + 1).drop_last() =~= orig.subrange(0, i as int));
            assert(orig.subrange(0, i + 1).last() == x);
        }
        if !lists(to_be_deleted, i) {
            out.push(x);
        }
        i = i + 1;
    }
    proof {
        assert(orig.subrange(0, n as int) =~= orig);
    }
    out
}

/// A list of items that a user adds to and removes from.
#[derive(Default, Debug, Clone)]
pub struct MutItemList<T: Default> {
    items: Vec<T>,
}

impl<T: Default> MutItemList<T> {
    pub closed spec fn view_items(self) -> Seq<T> {
        self.items@
    }

    /// The items in order.
    pub fn iter(&self) -> (r: std::slice::Iter<'_, T>)
        ensures
            r.remaining().unref() == self.view_items(),
    {
        proof {
            broadcast use vstd::std_specs::slice::axiom_spec_slice_iter;
        }
        self.items.iter()
    }

    /// Appends an item.
    pub fn push(&mut self, item: T)
        ensures
            final(self).view_items() == old(self).view_items().push(item),
    {
        self.items.push(item);
    }

    /// Takes out the item at `idx`, if there is one.
    pub fn remove(&mut self, idx: usize) -> (r: Option<T>)
        ensures
            idx < old(self).view_items().len() ==> r == Some(old(self).view_items()[idx as int])
                && final(self).view_items() == old(self).view_items().remove(idx as int),
            idx >= old(self).view_items().len() ==> r is None && final(self).view_items() == old(self).view_items(),
    {
        if idx < self.items.len() {
            Some(self.items.remove(idx))
        } else {
            None
        }
    }
}

} // verus!
