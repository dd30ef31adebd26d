//! The teaching assistants: everyone on the staff list but the reserved
//! assistant takes present students in turn.

use crate::allocator::{reserved_ta, texts};
use crate::text::is_text;
use vstd::prelude::*;
use vstd::string::*;

verus! {

/// The names on `staff` other than the reserved assistant's, in order.
pub open spec fn pool_of(staff: Seq<Seq<char>>) -> Seq<Seq<char>> {
    staff.filter(|name: Seq<char>| name != reserved_ta())
}

/// The assistants who take present students: the staff list without the
/// reserved assistant, in the order of the list.
pub fn round_robin_pool(staff: &Vec<String>) -> (pool: Vec<String>)
    ensures
        texts(pool@) == pool_of(texts(staff@)),
{
    let mut pool: Vec<String> = Vec::new();
    let mut i: usize = 0;
    proof {
        reveal(Seq::filter);
        reveal_strlit("Setu");
        assert("Setu"@ =~= reserved_ta());
        assert(texts(staff@).take(0) =~= Seq::<Seq<char>>::empty());
        assert(texts(pool@) =~= pool_of(texts(staff@).take(0)));
    }
    while i < staff.len()
        invariant
            i <= staff.len(),
            "Setu"@ == reserved_ta(),
            texts(pool@) == pool_of(texts(staff@).take(i as int)),
        decreases staff.len() - i,
    {
        proof {
            reveal(Seq::filter);
            assert(texts(staff@).take(i + 1).drop_last() =~= texts(staff@).take(i as int));
        }
        if !is_text(&staff[i], "Setu") {
            pool.push(staff[i].clone());
            assert(texts(pool@) =~= pool_of(texts(staff@).take(i as int)).push(staff@[i as int]@));
        }
        i = i + 1;
    }
    assert(texts(staff@).take(staff@.len() as int) =~= texts(staff@));
    pool
}

} // verus!
