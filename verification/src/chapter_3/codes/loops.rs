//! Three passes: a counted walk over a list, a walk over its elements, and a
//! countdown over a range of numbers.

use vstd::prelude::*;

verus! {

/// Walks `list` with an explicit counter, from zero up to its length, and
/// records the counter and the element found at each step.
pub fn counted_pass(list: [i32; 5]) -> (steps: Vec<(usize, i32)>)
    ensures
        steps@.len() == 5,
        forall|i: int| 0 <= i < 5 ==> steps@[i] == (i as usize, list@[i]),
{
    let mut steps: Vec<(usize, i32)> = Vec::new();
    let mut count: usize = 0;
    while count < list.len()
        invariant
            count <= 5,
            steps@.len() == count,
            forall|i: int| 0 <= i < count ==> steps@[i] == (i as usize, list@[i]),
        decreases 5 - count,
    {
        let element = list[count];
        steps.push((count, element));
        count += 1;
    }
    steps
}

/// Walks the elements of `list` themselves, first to last.
pub fn direct_pass(list: [i32; 5]) -> (values: Vec<i32>)
    ensures
        values@ == list@,
{
    let mut values: Vec<i32> = Vec::new();
    for element in it: list.iter()
        invariant
            it.seq().len() == 5,
            forall|i: int| 0 <= i < 5 ==> *it.seq()[i] == list@[i],
            values@ == list@.take(it.index()),
    {
        values.push(*element);
    }
    values
}

/// Walks the numbers from `low` up to, but not including, `high`, last to first.
pub fn countdown(low: i32, high: i32) -> (numbers: Vec<i32>)
    ensures
        numbers@.len() == if low < high { high - low } else { 0 },
        forall|k: int| 0 <= k < numbers@.len() ==> numbers@[k] == high - 1 - k,
{
    let mut numbers: Vec<i32> = Vec::new();
    let mut number: i32 = high;
    while number > low
        invariant
            low <= number || number == high,
            number <= high,
            numbers@.len() == high - number,
            forall|k: int| 0 <= k < numbers@.len() ==> numbers@[k] == high - 1 - k,
        decreases number - low,
    {
        number -= 1;
        numbers.push(number);
    }
    numbers
}

/// Where the countdown stops: the lowest number it reports.
pub const COUNTDOWN_LOW: i32 = 1;

/// Where the countdown starts from: one more than the first number it reports.
pub const COUNTDOWN_HIGH: i32 = 4;

/// What the three passes visited, each in the order of its visits.
#[derive(Debug, PartialEq, Eq)]
pub struct Passes {
    /// The counted pass: the counter and the element at each step.
    pub counted: Vec<(usize, i32)>,
    /// The pass over the elements themselves.
    pub direct: Vec<i32>,
    /// The countdown.
    pub countdown: Vec<i32>,
}

/// Makes the three passes, one after the other: the counted pass and the
/// direct pass over `list`, then the countdown from three to one.
pub fn loops_example(list: [i32; 5]) -> (passes: Passes)
    ensures
        passes.counted@ == Seq::new(5, |i: int| (i as usize, list@[i])),
        passes.direct@ == list@,
        passes.countdown@ == seq![3i32, 2i32, 1i32],
{
    let counted = counted_pass(list);
    let direct = direct_pass(list);
    let countdown = countdown(COUNTDOWN_LOW, COUNTDOWN_HIGH);
    assert(counted@ =~= Seq::new(5, |i: int| (i as usize, list@[i])));
    assert(countdown@ =~= seq![3i32, 2i32, 1i32]);
    Passes { counted, direct, countdown }
}

} // verus!
