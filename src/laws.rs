use vstd::prelude::*;

use crate::engine::{cascade, dispatched, Dispatch, Effect, ImageSource, Phase};
use crate::script::{max_index, Node};

verus! {

/// Where the position stands after `n` traversal steps from `from`: each
/// step moves it on by one until it reaches the end of the script, where
/// the traversal reports the end and the position stays.
pub open spec fn position_after(s: Seq<Node>, from: int, n: nat) -> int
    decreases n,
{
    if n == 0 {
        from
    } else {
        let p = position_after(s, from, (n - 1) as nat);
        if p >= max_index(s) {
            p
        } else {
            p + 1
        }
    }
}

/// Repeated advancing ends: from any position, `max_index(s)` traversal
/// steps at most bring the position to the end of the script, where the
/// next step reports the end.
pub proof fn repeated_advancing_ends(s: Seq<Node>, from: int)
    requires
        0 <= from,
    ensures
        position_after(s, from, max_index(s) as nat) >= max_index(s),
{
    lemma_position_after(s, from, max_index(s) as nat);
}

proof fn lemma_position_after(s: Seq<Node>, from: int, n: nat)
    requires
        0 <= from,
    ensures
        position_after(s, from, n) >= from,
        position_after(s, from, n) >= max_index(s) || position_after(s, from, n) == from + n,
    decreases n,
{
    if n > 0 {
        lemma_position_after(s, from, (n - 1) as nat);
    }
}

/// Repeated switching ends within `max_index(s)` calls: each call of
/// `handle_switch_next_node` that finds an instruction moves the position
/// strictly forward and never past the end of the script (its contract), so
/// the positions reached by successive such calls from position 0 number at
/// most `max_index(s)`; the next call finds none.
pub proof fn switching_finds_at_most_max(s: Seq<Node>, positions: Seq<int>)
    requires
        positions.len() > 0,
        positions[0] == 0,
        forall|k: int| 0 < k < positions.len() ==> positions[k - 1] < #[trigger] positions[k] <= max_index(s),
    ensures
        positions.len() - 1 <= max_index(s),
{
    lemma_strictly_rising(positions, positions.len() - 1);
    if positions.len() > 1 {
        assert(positions[positions.len() - 1] <= max_index(s));
    }
}

proof fn lemma_strictly_rising(positions: Seq<int>, k: int)
    requires
        0 <= k < positions.len(),
        positions[0] == 0,
        forall|j: int| 0 < j < positions.len() ==> positions[j - 1] < #[trigger] positions[j],
    ensures
        positions[k] >= k,
    decreases k,
{
    if k > 0 {
        lemma_strictly_rising(positions, k - 1);
        assert(positions[k - 1] < positions[k]);
    }
}

/// An advance that does not end playback moves the position on, and never
/// past the end of the script; so advances that keep playback going are at
/// most as many as the script has positions before the end.
pub proof fn advance_moves_on(
    s: Seq<Node>,
    cached: Set<Seq<char>>,
    from: int,
    to: int,
    phase: Phase,
    records: Seq<Dispatch>,
)
    requires
        cascade(s, cached, from, to, phase, records),
        !(phase is Ended),
    ensures
        from < to <= max_index(s),
{
    if to == from {
        assert(crate::engine::found_between(s, from, to).len() == 0);
    }
    if from >= max_index(s) {
        assert(to == from);
        assert(crate::engine::found_between(s, from, to).len() == 0);
    }
}

/// A dialogue line gates playback: in the dispatches of one advance a
/// dialogue line can only come last, and when it does playback waits for
/// input; nothing after it is dispatched before the next advance.
pub proof fn dialogue_waits_for_input(
    s: Seq<Node>,
    cached: Set<Seq<char>>,
    from: int,
    to: int,
    phase: Phase,
    records: Seq<Dispatch>,
    k: int,
)
    requires
        cascade(s, cached, from, to, phase, records),
        0 <= k < records.len(),
        records[k].node@ is Say,
    ensures
        k == records.len() - 1,
        phase == Phase::AwaitingInput,
{
}

/// The image an effect sets, if it sets one.
pub open spec fn image_set_by(e: Effect) -> Option<ImageSource> {
    match e {
        Effect::SetBackground { image } => Some(image),
        Effect::SetCharacter { image } => Some(image),
        _ => None,
    }
}

/// An image already in the content cache is taken from there: dispatching a
/// background change or a character display that names it asks for the
/// cached entry, not for the image file.
pub proof fn cached_image_is_not_resolved_again(
    n: Node,
    cached: Set<Seq<char>>,
    d: Dispatch,
    image: Seq<char>,
)
    requires
        dispatched(n, cached, d),
        cached.contains(image),
        (n matches Node::Show { image: i, .. } && i == image) || (n matches Node::Scene {
            image: Some(i),
            ..
        } && i == image),
    ensures
        image_set_by(d.effects@[0]) matches Some(ImageSource::Cached { name }) && name@ == image,
{
}

} // verus!
