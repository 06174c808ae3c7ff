//! A greeter that counts its repetitions up to five.

use vstd::prelude::*;

verus! {

/// The repetition at which the greeter stops.
pub const LAST_REPETITION: i32 = 5;

/// What the greeter was told on the command line.
pub struct HelloArgs {
    pub times: i32,
    pub name: String,
    pub age: String,
}

impl HelloArgs {
    /// Steps to the next repetition and returns its number, or returns
    /// nothing once five or more have been reached.
    pub fn next(&mut self) -> (item: Option<i32>)
        ensures
            final(self).name == old(self).name,
            final(self).age == old(self).age,
            old(self).times < LAST_REPETITION ==> final(self).times == old(self).times + 1 && item
                == Some(final(self).times),
            old(self).times >= LAST_REPETITION ==> final(self).times == old(self).times && item
                == None::<i32>,
    {
        if self.times < LAST_REPETITION {
            self.times += 1;
            Some(self.times)
        } else {
            None
        }
    }
}

/// The numbers that a greeter starting at `times` still hands out, in order.
pub open spec fn repetitions_from(times: i32) -> Seq<i32>
    decreases LAST_REPETITION - times,
{
    if times < LAST_REPETITION {
        seq![(times + 1) as i32] + repetitions_from((times + 1) as i32)
    } else {
        Seq::empty()
    }
}

impl HelloArgs {
    /// Runs the greeter to its end and returns the numbers it handed out.
    pub fn remaining(&mut self) -> (items: Vec<i32>)
        ensures
            items@ == repetitions_from(old(self).times),
            final(self).name == old(self).name,
            final(self).age == old(self).age,
            final(self).times == if old(self).times < LAST_REPETITION {
                LAST_REPETITION
            } else {
                old(self).times
            },
    {
        let mut items: Vec<i32> = Vec::new();
        loop
            invariant
                self.name == old(self).name,
                self.age == old(self).age,
                old(self).times <= self.times,
                old(self).times < LAST_REPETITION ==> self.times <= LAST_REPETITION,
                old(self).times >= LAST_REPETITION ==> self.times == old(self).times,
                items@ + repetitions_from(self.times) == repetitions_from(old(self).times),
            ensures
                items@ == repetitions_from(old(self).times),
                self.times >= LAST_REPETITION,
                self.name == old(self).name,
                self.age == old(self).age,
                old(self).times < LAST_REPETITION ==> self.times == LAST_REPETITION,
                old(self).times >= LAST_REPETITION ==> self.times == old(self).times,
            decreases LAST_REPETITION - self.times,
        {
            let ghost before = self.times;
            match self.next() {
                Some(item) => {
                    items.push(item);
                    assert(items@ + repetitions_from(self.times) =~= (items@.drop_last()
                        + repetitions_from(before)));
                },
                None => {
                    assert(repetitions_from(self.times) =~= Seq::<i32>::empty());
                    assert(items@ + Seq::<i32>::empty() =~= items@);
                    break ;
                },
            }
        }
        items
    }
}

} // verus!
