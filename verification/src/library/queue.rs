//! Queues of paths. A queue is a vector used as a stack; what the contracts
//! speak of is the sequence of the paths' characters.

use vstd::prelude::*;

verus! {

/// Puts `path` on the queue.
pub fn push_path(queue: &mut Vec<String>, path: String)
    ensures
        final(queue).deep_view() == old(queue).deep_view().push(path@),
{
    let ghost before = queue.deep_view();
    queue.push(path);
    assert(queue.deep_view() =~= before.push(path@));
}

/// Takes the path that was put on the queue last.
pub fn pop_path(queue: &mut Vec<String>) -> (path: Option<String>)
    ensures
        old(queue).deep_view().len() == 0 ==> path is None && final(queue).deep_view()
            == old(queue).deep_view(),
        old(queue).deep_view().len() > 0 ==> path is Some && path->0@ == old(
            queue,
        ).deep_view().last() && final(queue).deep_view() == old(queue).deep_view().drop_last(),
{
    let ghost before = queue.deep_view();
    let path = queue.pop();
    proof {
        if before.len() > 0 {
            assert(queue.deep_view() =~= before.drop_last());
        } else {
            assert(queue.deep_view() =~= before);
        }
    }
    path
}

/// Whether `path` is on the queue.
pub fn contains_path(queue: &Vec<String>, path: &String) -> (found: bool)
    ensures
        found == queue.deep_view().contains(path@),
{
    let mut i: usize = 0;
    while i < queue.len()
        invariant
            i <= queue.len(),
            forall|k: int| 0 <= k < i ==> queue.deep_view()[k] != path@,
        decreases queue.len() - i,
    {
        if queue[i] == *path {
            assert(queue.deep_view()[i as int] == path@);
            return true;
        }
        i += 1;
    }
    false
}

/// Empties the queue.
pub fn clear_paths(queue: &mut Vec<String>)
    ensures
        final(queue).deep_view() == Seq::<Seq<char>>::empty(),
{
    queue.clear();
    assert(queue.deep_view() =~= Seq::<Seq<char>>::empty());
}

} // verus!
