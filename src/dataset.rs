use vstd::prelude::*;

use crate::measures::Measure;

verus! {

use vstd::std_specs::ops::AddSpec;
use vstd::std_specs::ops::DivSpec;

/// Access to a position that a dataset does not hold.
#[derive(Clone, Copy, PartialEq, Eq, Debug)]
pub struct IndexOutOfRange {
    pub index: usize,
    pub len: usize,
}

/// Several measures of the same quantity, in the order they were taken.
#[derive(Clone, Debug)]
pub struct Dataset<T> {
    data: Vec<Measure<T>>,
}

impl<T> View for Dataset<T> {
    type V = Seq<Measure<T>>;

    closed spec fn view(&self) -> Seq<Measure<T>> {
        self.data@
    }
}

/// The sum of the values of a non-empty sequence of measures, taken from the
/// first to the last with `T`'s addition.
pub open spec fn sum_values<T: Copy + core::ops::Add<Output = T>>(s: Seq<Measure<T>>) -> T
    decreases s.len(),
{
    if s.len() <= 1 {
        s[0].value
    } else {
        sum_values(s.drop_last()).add_spec(s.last().value)
    }
}

/// Every addition that `sum_values` makes is allowed by `T`'s addition.
pub open spec fn summable<T: Copy + core::ops::Add<Output = T>>(s: Seq<Measure<T>>) -> bool
    decreases s.len(),
{
    if s.len() <= 1 {
        true
    } else {
        summable(s.drop_last()) && sum_values(s.drop_last()).add_req(s.last().value)
    }
}

impl<T> Dataset<T> {
    pub fn new(data: Vec<Measure<T>>) -> (r: Self)
        ensures
            r@ == data@,
    {
        Dataset { data }
    }

    pub fn len(&self) -> (r: usize)
        ensures
            r == self@.len(),
    {
        self.data.len()
    }

    /// The measure at position `i`, or an error when there is none.
    pub fn index(&self, i: usize) -> (r: Result<&Measure<T>, IndexOutOfRange>)
        ensures
            i < self@.len() ==> (r matches Ok(m) && *m == self@[i as int]),
            i >= self@.len() ==> r == Err::<&Measure<T>, IndexOutOfRange>(
                IndexOutOfRange { index: i, len: self@.len() as usize },
            ),
    {
        if i < self.data.len() {
            Ok(&self.data[i])
        } else {
            Err(IndexOutOfRange { index: i, len: self.data.len() })
        }
    }

    /// The measure at position `i`, to be changed in place, or an error when
    /// there is none.  No other position changes.
    pub fn index_mut(&mut self, i: usize) -> (r: Result<&mut Measure<T>, IndexOutOfRange>)
        ensures
            i < old(self)@.len() ==> (r matches Ok(m) && *m == old(self)@[i as int]
                && final(self)@ == old(self)@.update(i as int, *final(m))),
            i >= old(self)@.len() ==> (r matches Err(e) && e == (IndexOutOfRange {
                index: i,
                len: old(self)@.len() as usize,
            }) && final(self)@ == old(self)@),
    {
        if i < self.data.len() {
            Ok(&mut self.data[i])
        } else {
            Err(IndexOutOfRange { index: i, len: self.data.len() })
        }
    }
}

/// A prefix of a summable sequence is summable.
proof fn lemma_summable_prefix<T: Copy + core::ops::Add<Output = T>>(s: Seq<Measure<T>>, k: int)
    requires
        summable(s),
        1 <= k <= s.len(),
    ensures
        summable(s.subrange(0, k)),
    decreases s.len(),
{
    if k == s.len() {
        assert(s.subrange(0, k) =~= s);
    } else {
        assert(s.drop_last().subrange(0, k) =~= s.subrange(0, k));
        lemma_summable_prefix(s.drop_last(), k);
    }
}

impl<T: Copy + core::ops::Add<Output = T> + core::ops::Div<usize, Output = T>> Dataset<T> {
    /// The arithmetic mean of the values, or `None` for an empty dataset.
    /// The errors take no part in it.
    pub fn avarage(&self) -> (r: Option<T>)
        requires
            self@.len() > 0 ==> {
                &&& T::obeys_add_spec()
                &&& summable(self@)
                &&& sum_values(self@).div_req(self@.len() as usize)
            },
        ensures
            self@.len() == 0 <==> r is None,
            self@.len() > 0 && T::obeys_div_spec() ==> r == Some(
                sum_values(self@).div_spec(self@.len() as usize),
            ),
    {
        let n = self.data.len();
        if n == 0 {
            return None;
        }
        let mut sum: T = self.data[0].value;
        let mut i: usize = 1;
        assert(sum_values(self@.subrange(0, 1)) == self@[0].value);
        while i < n
            invariant
                1 <= i <= n,
                n == self@.len(),
                T::obeys_add_spec(),
                summable(self@),
                sum == sum_values(self@.subrange(0, i as int)),
            decreases n - i,
        {
            proof {
                lemma_summable_prefix(self@, i + 1);
                assert(self@.subrange(0, i + 1).drop_last() =~= self@.subrange(0, i as int));
            }
            sum = sum + self.data[i].value;
            i = i + 1;
        }
        assert(self@.subrange(0, n as int) =~= self@);
        Some(sum / n)
    }
}

/// Changing the measure at one position, as `index_mut` allows, leaves the
/// error (and the value) at every other position as it was.
pub proof fn lemma_mutation_isolated<T>(before: Seq<Measure<T>>, i: int, m: Measure<T>, j: int)
    requires
        0 <= i < before.len(),
        0 <= j < before.len(),
        i != j,
    ensures
        before.update(i, m)[j].error == before[j].error,
        before.update(i, m)[j].value == before[j].value,
{
}

} // verus!
