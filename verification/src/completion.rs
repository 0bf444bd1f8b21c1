//! Completion of store paths on the command line.

use vstd::prelude::*;

use crate::text::chars_of;

verus! {

/// Those of `options` that start with `current`, in their order.
pub open spec fn completions(current: Seq<char>, options: Seq<Seq<char>>) -> Seq<Seq<char>>
    decreases options.len(),
{
    if options.len() == 0 {
        Seq::empty()
    } else {
        let rest = completions(current, options.drop_last());
        if current.is_prefix_of(options.last()) {
            rest.push(options.last())
        } else {
            rest
        }
    }
}

/// Whether `text` starts with `prefix`.
pub fn starts_with(text: &Vec<char>, prefix: &Vec<char>) -> (starts: bool)
    ensures
        starts == prefix@.is_prefix_of(text@),
{
    if prefix.len() > text.len() {
        return false;
    }
    let mut i: usize = 0;
    while i < prefix.len()
        invariant
            i <= prefix@.len() <= text@.len(),
            forall|j: int| 0 <= j < i ==> text@[j] == prefix@[j],
        decreases prefix@.len() - i,
    {
        if text[i] != prefix[i] {
            assert(text@.subrange(0, prefix@.len() as int)[i as int] != prefix@[i as int]);
            return false;
        }
        i += 1;
    }
    assert(text@.subrange(0, prefix@.len() as int) =~= prefix@);
    true
}

/// The candidates offered for what the user has typed so far: every option
/// that starts with it.
pub fn do_complete(current: &str, options: Vec<String>) -> (candidates: Vec<String>)
    ensures
        candidates.deep_view() == completions(current@, options.deep_view()),
{
    let typed = chars_of(current);
    let ghost all = options.deep_view();
    let mut candidates: Vec<String> = Vec::new();
    let mut i: usize = 0;
    assert(candidates.deep_view() =~= Seq::<Seq<char>>::empty());
    assert(all.take(0) =~= Seq::<Seq<char>>::empty());
    while i < options.len()
        invariant
            i <= options@.len(),
            typed@ == current@,
            all == options.deep_view(),
            all.len() == options@.len(),
            candidates.deep_view() == completions(current@, all.take(i as int)),
        decreases options@.len() - i,
    {
        let option = chars_of(options[i].as_str());
        proof {
            let next = all.take(i + 1);
            assert(next.drop_last() == all.take(i as int));
            assert(next.last() == options@[i as int]@);
        }
        if starts_with(&option, &typed) {
            let ghost before = candidates.deep_view();
            let candidate = options[i].clone();
            candidates.push(candidate);
            assert(candidates.deep_view() =~= before.push(candidate@));
        }
        i += 1;
    }
    assert(all.take(i as int) == all);
    candidates
}

} // verus!
