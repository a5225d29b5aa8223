//! A list of numbers that keeps its sum, so that the mean is at hand after
//! every change.

use vstd::prelude::*;

verus! {

/// The sum of a sequence of numbers.
pub open spec fn sum(values: Seq<i64>) -> int
    decreases values.len(),
{
    if values.len() == 0 {
        0
    } else {
        sum(values.drop_last()) + values.last()
    }
}

/// The quotient of `a` by a positive `b`, rounded towards zero.
pub open spec fn quotient(a: int, b: int) -> int
    recommends
        b > 0,
{
    if a >= 0 {
        a / b
    } else {
        -((-a) / b)
    }
}

/// The mean of a sequence of numbers, rounded towards zero; 0 for the empty
/// sequence.
pub open spec fn mean(values: Seq<i64>) -> int {
    if values.len() == 0 {
        0
    } else {
        quotient(sum(values), values.len() as int)
    }
}

/// A number brought into the range of `i32`.
pub open spec fn clamp_i32(n: int) -> i32 {
    if n > i32::MAX {
        i32::MAX
    } else if n < i32::MIN {
        i32::MIN
    } else {
        n as i32
    }
}

/// The sum of `n` numbers of 64 bits lies within `n` times their range.
pub proof fn lemma_sum_bounds(values: Seq<i64>)
    ensures
        -0x8000_0000_0000_0000 * values.len() <= sum(values),
        sum(values) <= 0x7fff_ffff_ffff_ffff * values.len(),
    decreases values.len(),
{
    if values.len() > 0 {
        lemma_sum_bounds(values.drop_last());
    }
}

/// A collection of numbers with their mean.
pub struct AveragedCollection {
    list: Vec<i64>,
}

impl View for AveragedCollection {
    type V = Seq<i64>;

    closed spec fn view(&self) -> Seq<i64> {
        self.list@
    }
}

impl AveragedCollection {
    /// An empty collection.
    pub fn new() -> (c: Self)
        ensures
            c@ == Seq::<i64>::empty(),
    {
        AveragedCollection { list: Vec::new() }
    }

    /// Adds a number at the end.
    pub fn add(&mut self, value: i64)
        ensures
            final(self)@ == old(self)@.push(value),
    {
        self.list.push(value);
    }

    /// Takes the last number out, if there is one.
    pub fn remove(&mut self) -> (r: Option<i64>)
        ensures
            old(self)@.len() == 0 ==> r is None && final(self)@ == old(self)@,
            old(self)@.len() > 0 ==> r == Some(old(self)@.last()) && final(self)@ == old(
                self,
            )@.drop_last(),
    {
        self.list.pop()
    }

    /// How many numbers the collection holds.
    pub fn len(&self) -> (n: usize)
        ensures
            n == self@.len(),
    {
        self.list.len()
    }

    /// The sum of the numbers.
    pub fn total(&self) -> (t: i128)
        ensures
            t == sum(self@),
    {
        let mut t: i128 = 0;
        let mut i: usize = 0;
        while i < self.list.len()
            invariant
                i <= self.list@.len(),
                t == sum(self.list@.take(i as int)),
            decreases self.list@.len() - i,
        {
            proof {
                lemma_sum_bounds(self.list@.take(i as int));
                assert(self.list@.take(i + 1).drop_last() =~= self.list@.take(i as int));
            }
            t = t + self.list[i] as i128;
            i = i + 1;
        }
        assert(self.list@.take(i as int) =~= self.list@);
        t
    }

    /// The mean of the numbers, rounded towards zero and brought into the
    /// range of `i32`; 0 for an empty collection.
    pub fn whole_average(&self) -> (avg: i32)
        ensures
            avg == clamp_i32(mean(self@)),
    {
        proof {
            lemma_sum_bounds(self.list@);
        }
        let n = self.list.len();
        if n == 0 {
            return 0;
        }
        let total = self.total();
        let q: i128 = if total >= 0 {
            ((total as u128) / (n as u128)) as i128
        } else {
            -((((-total) as u128) / (n as u128)) as i128)
        };
        if q > 2147483647 {
            2147483647
        } else if q < -2147483648 {
            -2147483648
        } else {
            q as i32
        }
    }
}

} // verus!
