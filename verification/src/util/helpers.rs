//! Sums and joins over the items of a vector.

use vstd::prelude::*;
use vstd::string::StringExecFns;

verus! {

/// The position of the last item.
pub trait LastIndex<T> {
    /// The number of items.
    spec fn count(&self) -> nat;

    /// The position of the last item, if there is an item.
    fn last_index(&self) -> (index: Option<usize>)
        ensures
            match index {
                Some(last) => last + 1 == self.count(),
                None => self.count() == 0,
            },
    ;
}

impl<T> LastIndex<T> for Vec<T> {
    open spec fn count(&self) -> nat {
        self@.len()
    }

    fn last_index(&self) -> (index: Option<usize>) {
        if self.len() == 0 {
            None
        } else {
            Some(self.len() - 1)
        }
    }
}

/// The sum of the numbers, if every sum on the way fits 32 bits.
pub open spec fn checked_total(values: Seq<i32>) -> Option<i32>
    decreases values.len(),
{
    if values.len() == 0 {
        Some(0i32)
    } else {
        match checked_total(values.drop_last()) {
            Some(before) => if i32::MIN <= before + values.last() <= i32::MAX {
                Some((before + values.last()) as i32)
            } else {
                None
            },
            None => None,
        }
    }
}

/// The sum of what a function gives for each item.
pub trait SumBy<T> {
    /// The items.
    spec fn summands(&self) -> Seq<T>;

    /// The sum of what `func` gives for each item, in order, or none if a
    /// sum on the way does not fit 32 bits.
    fn sum_by<F: Fn(&T) -> i32>(&self, func: &F) -> (sum: Option<i32>)
        requires
            forall|i: int|
                0 <= i < self.summands().len() ==> func.requires((&#[trigger] self.summands()[i],)),
        ensures
            exists|values: Seq<i32>|
                {
                    &&& values.len() == self.summands().len()
                    &&& forall|i: int|
                        0 <= i < values.len() ==> func.ensures(
                            (&self.summands()[i],),
                            #[trigger] values[i],
                        )
                    &&& sum == checked_total(values)
                },
    ;
}

impl<T> SumBy<T> for Vec<T> {
    open spec fn summands(&self) -> Seq<T> {
        self@
    }

    fn sum_by<F: Fn(&T) -> i32>(&self, func: &F) -> (sum: Option<i32>) {
        let mut sum: Option<i32> = Some(0);
        let ghost mut values: Seq<i32> = Seq::empty();
        let mut i: usize = 0;
        while i < self.len()
            invariant
                i <= self@.len(),
                values.len() == i,
                forall|k: int|
                    0 <= k < self.summands().len() ==> func.requires(
                        (&#[trigger] self.summands()[k],),
                    ),
                forall|k: int| 0 <= k < i ==> func.ensures((&self@[k],), #[trigger] values[k]),
                sum == checked_total(values),
            decreases self@.len() - i,
        {
            assert(self.summands()[i as int] == self@[i as int]);
            let value = func(&self[i]);
            proof {
                let ghost before = values;
                values = values.push(value);
                assert(values.drop_last() == before);
            }
            sum = match sum {
                Some(before) => before.checked_add(value),
                None => None,
            };
            i += 1;
        }
        proof {
            assert(values.len() == self.summands().len());
        }
        sum
    }
}

/// The texts joined in order, each followed by the separator.
pub open spec fn joined_with(texts: Seq<Seq<char>>, separator: Seq<char>) -> Seq<char>
    decreases texts.len(),
{
    if texts.len() == 0 {
        Seq::empty()
    } else {
        joined_with(texts.drop_last(), separator) + texts.last() + separator
    }
}

/// Whether `mapper` may give the text `text` for `item`.
pub open spec fn gives_text<T, F: Fn(&T) -> &str>(mapper: &F, item: T, text: Seq<char>) -> bool {
    exists|found: &str| #[trigger] mapper.ensures((&item,), found) && found@ == text
}

/// Whether `texts` are texts that `mapper` may give for `items`, one for
/// each.
pub open spec fn gives_texts<T, F: Fn(&T) -> &str>(
    mapper: &F,
    items: Seq<T>,
    texts: Seq<Seq<char>>,
) -> bool {
    &&& texts.len() == items.len()
    &&& forall|i: int| 0 <= i < texts.len() ==> gives_text(mapper, items[i], #[trigger] texts[i])
}

/// The texts that a function gives for each item, joined.
pub trait MapJoin<T> {
    /// The items.
    spec fn joinable(&self) -> Seq<T>;

    /// The texts that `mapper` gives for each item, joined in order.
    fn map_join<F: Fn(&T) -> &str>(&self, mapper: &F) -> (joined: String)
        requires
            forall|i: int|
                0 <= i < self.joinable().len() ==> mapper.requires((&#[trigger] self.joinable()[i],)),
        ensures
            exists|texts: Seq<Seq<char>>| #[trigger]
                gives_texts(mapper, self.joinable(), texts) && joined@ == joined_with(
                    texts,
                    Seq::empty(),
                ),
    ;

    /// The texts that `mapper` gives for each item, joined in order, each
    /// followed by the separator. `capacity` is the room that the result is
    /// given at first.
    fn map_join_cap<F: Fn(&T) -> &str>(&self, capacity: usize, separator: &str, mapper: &F) -> (joined:
        String)
        requires
            forall|i: int|
                0 <= i < self.joinable().len() ==> mapper.requires((&#[trigger] self.joinable()[i],)),
        ensures
            exists|texts: Seq<Seq<char>>| #[trigger]
                gives_texts(mapper, self.joinable(), texts) && joined@ == joined_with(
                    texts,
                    separator@,
                ),
    ;
}

impl<T> MapJoin<T> for Vec<T> {
    open spec fn joinable(&self) -> Seq<T> {
        self@
    }

    fn map_join<F: Fn(&T) -> &str>(&self, mapper: &F) -> (joined: String) {
        proof {
            reveal_strlit("");
            assert(""@ =~= Seq::<char>::empty());
        }
        self.map_join_cap(16, "", mapper)
    }

    fn map_join_cap<F: Fn(&T) -> &str>(&self, capacity: usize, separator: &str, mapper: &F) -> (joined:
        String) {
        let mut joined = String::new();
        let ghost mut texts: Seq<Seq<char>> = Seq::empty();
        let mut i: usize = 0;
        while i < self.len()
            invariant
                i <= self@.len(),
                forall|k: int|
                    0 <= k < self.joinable().len() ==> mapper.requires(
                        (&#[trigger] self.joinable()[k],),
                    ),
                gives_texts(mapper, self@.take(i as int), texts),
                joined@ == joined_with(texts, separator@),
            decreases self@.len() - i,
        {
            assert(self.joinable()[i as int] == self@[i as int]);
            let text = mapper(&self[i]);
            proof {
                let ghost before = texts;
                texts = texts.push(text@);
                assert(texts.drop_last() == before);
                assert(mapper.ensures((&self@[i as int],), text));
                assert(gives_text(mapper, self@[i as int], text@));
                assert forall|k: int| 0 <= k < texts.len() implies gives_text(
                    mapper,
                    self@.take(i + 1)[k],
                    #[trigger] texts[k],
                ) by {
                    if k < i {
                        assert(texts[k] == before[k]);
                        assert(self@.take(i + 1)[k] == self@.take(i as int)[k]);
                    }
                }
            }
            joined.append(text);
            joined.append(separator);
            i += 1;
        }
        assert(self@.take(self@.len() as int) == self@);
        assert(gives_texts(mapper, self.joinable(), texts));
        joined
    }
}

} // verus!
