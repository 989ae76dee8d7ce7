use vstd::prelude::*;

use crate::inject::{
    collides, collides_with, inject_into_labels, injected, insert_in_order, lemma_injected_no_error,
};
use crate::lookup::{find_next_element, holds_no_error, instruction_is_well_formed, max_position};
use crate::script::{
    find_at, lookup, max_index, no_error, node_ok, opt_view, position_of, script_view, AudioMode, Instruction, Node,
};

verus! {

/// The errors of the playback engine.
#[derive(Clone, Copy, Debug, PartialEq, Eq, Structural)]
pub enum NovelError {
    /// A malformed instruction reached dispatch, or a script held one.
    MalformedInstruction,
    /// An instruction was injected at a position the script already uses.
    PositionCollision,
    /// The script's source text could not be parsed.
    ParseFailure,
}

/// Where playback stands between two triggers.
#[derive(Clone, Copy, Debug, PartialEq, Eq, Structural)]
pub enum Phase {
    /// Nothing is pending; the next advance moves on.
    Idle,
    /// A dialogue line is shown; playback waits for an external advance.
    AwaitingInput,
    /// The position passed the end of the script.
    Ended,
}

/// How an image is to be obtained.
#[derive(Debug, PartialEq)]
pub enum ImageSource {
    /// The image is in the content cache under this name.
    Cached { name: String },
    /// The image has to be resolved from this file, under the assets path.
    Asset { file_name: String },
}

/// A side effect that dispatch asks the host to perform.
#[derive(Debug, PartialEq)]
pub enum Effect {
    /// Set the full-screen background and make it visible.
    SetBackground { image: ImageSource },
    /// Set the character image and make it visible.
    SetCharacter { image: ImageSource },
    /// Hide the character image.
    HideCharacter,
    /// Play an audio file; music stops the music playing before and loops.
    PlayAudio { mode: AudioMode, filename: String },
    /// Set the speaker and the dialogue text and make the text visible.
    ShowText { who: String, what: String },
}

/// What follows the dispatch of an instruction.
#[derive(Clone, Copy, Debug, PartialEq, Eq, Structural)]
pub enum Advance {
    /// Move on to the next instruction at once.
    Auto,
    /// Wait for an external advance signal.
    AwaitInput,
}

/// The outcome of dispatching one instruction.
#[derive(Debug)]
pub struct Dispatch {
    pub node: Instruction,
    pub effects: Vec<Effect>,
    pub advance: Advance,
}

/// The outcome of one traversal step.
#[derive(Debug, PartialEq)]
pub enum Traversal {
    /// The position is past the end of the script.
    Ended,
    /// The instruction at the new position.
    Found(Instruction),
    /// The new position holds nothing that the lookup reaches.
    Gap,
}

/// A resolved image kept under its logical name.
pub struct CachedImage<S> {
    pub name: String,
    pub image: S,
}

/// The playback state: the live script, the current position, the content
/// cache of resolved images, and the phase of the step machine.
pub struct NovelData<S> {
    pub ast: Vec<Instruction>,
    pub current_index: usize,
    pub cached_images: Vec<CachedImage<S>>,
    pub phase: Phase,
}

/// Whether `e` holds an entry named `k`.
pub open spec fn cache_has<S>(e: Seq<CachedImage<S>>, k: Seq<char>) -> bool {
    exists|i: int| 0 <= i < e.len() && (#[trigger] e[i]).name@ == k
}

/// No two entries of `e` share a name.
pub open spec fn names_unique<S>(e: Seq<CachedImage<S>>) -> bool {
    forall|i: int, j: int|
        0 <= i < e.len() && 0 <= j < e.len() && i != j ==> (#[trigger] e[i]).name@ != (#[trigger] e[j]).name@
}

/// The content cache as a map from logical name to image.
pub open spec fn cache_map<S>(e: Seq<CachedImage<S>>) -> Map<Seq<char>, S> {
    Map::new(
        |k: Seq<char>| cache_has(e, k),
        |k: Seq<char>| e[choose|i: int| 0 <= i < e.len() && (#[trigger] e[i]).name@ == k].image,
    )
}

/// The effects that dispatching an image asks for: the cached entry when the
/// cache holds the name, else the file `"<name>.png"`.
pub open spec fn image_source_for(src: ImageSource, image: Seq<char>, cached: Set<Seq<char>>) -> bool {
    if cached.contains(image) {
        src matches ImageSource::Cached { name } && name@ == image
    } else {
        src matches ImageSource::Asset { file_name } && file_name@ == image + ".png"@
    }
}

/// The effects that dispatching `n` requests, given the cached image names.
pub open spec fn effects_for(n: Node, cached: Set<Seq<char>>, e: Seq<Effect>) -> bool {
    match n {
        Node::Scene { image: Some(image), .. } => {
            &&& e.len() == 2
            &&& e[0] matches Effect::SetBackground { image: src } && image_source_for(src, image, cached)
            &&& e[1] is HideCharacter
        },
        Node::Scene { image: None, .. } => e.len() == 1 && e[0] is HideCharacter,
        Node::Show { image, .. } => {
            &&& e.len() == 1
            &&& e[0] matches Effect::SetCharacter { image: src } && image_source_for(src, image, cached)
        },
        Node::Hide { .. } => e.len() == 1 && e[0] is HideCharacter,
        Node::Play { mode, filename, .. } => {
            &&& e.len() == 1
            &&& e[0] matches Effect::PlayAudio { mode: m, filename: f } && m == mode && f@ == filename
        },
        Node::Say { who, what, .. } => {
            &&& e.len() == 1
            &&& e[0] matches Effect::ShowText { who: w, what: t }
            &&& w@ == (match who {
                Some(x) => x,
                None => Seq::empty(),
            })
            &&& t@ == what
        },
        _ => e.len() == 0,
    }
}

/// Only a dialogue line waits for input; everything else advances at once.
pub open spec fn advance_for(n: Node) -> Advance {
    if n is Say {
        Advance::AwaitInput
    } else {
        Advance::Auto
    }
}

/// `d` is the dispatch of `n` against the cached image names.
pub open spec fn dispatched(n: Node, cached: Set<Seq<char>>, d: Dispatch) -> bool {
    &&& d.node@ == n
    &&& effects_for(n, cached, d.effects@)
    &&& d.advance == advance_for(n)
}

impl<S> NovelData<S> {
    /// The model of the live script.
    pub open spec fn script(&self) -> Seq<Node> {
        script_view(self.ast)
    }

    /// The content cache as a map.
    pub open spec fn image_cache(&self) -> Map<Seq<char>, S> {
        cache_map(self.cached_images@)
    }

    /// The state is consistent: the cache holds each name once, and the
    /// live script holds no malformed instruction at any depth.
    pub open spec fn wf(&self) -> bool {
        &&& names_unique(self.cached_images@)
        &&& no_error(self.script())
    }

    /// An empty state: no script, position 0, nothing cached.
    pub fn new() -> (r: Self)
        ensures
            r.wf(),
            r.ast@.len() == 0,
            r.current_index == 0,
            r.cached_images@.len() == 0,
            r.phase == Phase::Idle,
    {
        NovelData { ast: Vec::new(), current_index: 0, cached_images: Vec::new(), phase: Phase::Idle }
    }

    /// Whether the content cache holds an image under `name`.
    pub fn is_cached(&self, name: &String) -> (r: bool)
        ensures
            r == self.image_cache().dom().contains(name@),
    {
        let mut i: usize = 0;
        while i < self.cached_images.len()
            invariant
                i <= self.cached_images.len(),
                forall|k: int| 0 <= k < i ==> (#[trigger] self.cached_images@[k]).name@ != name@,
            decreases self.cached_images.len() - i,
        {
            if self.cached_images[i].name == *name {
                return true;
            }
            i = i + 1;
        }
        false
    }

    /// The image cached under `name`, if any.
    pub fn cached_image(&self, name: &String) -> (r: Option<&S>)
        requires
            self.wf(),
        ensures
            r is Some <==> self.image_cache().dom().contains(name@),
            r matches Some(x) ==> *x == self.image_cache()[name@],
    {
        let mut i: usize = 0;
        while i < self.cached_images.len()
            invariant
                i <= self.cached_images.len(),
                names_unique(self.cached_images@),
                forall|k: int| 0 <= k < i ==> (#[trigger] self.cached_images@[k]).name@ != name@,
            decreases self.cached_images.len() - i,
        {
            if self.cached_images[i].name == *name {
                let ghost e = self.cached_images@;
                assert(cache_has(e, name@));
                let ghost c = choose|j: int| 0 <= j < e.len() && (#[trigger] e[j]).name@ == name@;
                assert(c == i);
                return Some(&self.cached_images[i].image);
            }
            i = i + 1;
        }
        None
    }

    /// Stores `sprite` in the content cache under `image_name`, replacing
    /// what was stored under that name before.
    pub fn write_image_cache(&mut self, image_name: String, sprite: S)
        requires
            old(self).wf(),
        ensures
            final(self).wf(),
            final(self).image_cache() == old(self).image_cache().insert(image_name@, sprite),
            final(self).ast == old(self).ast,
            final(self).current_index == old(self).current_index,
            final(self).phase == old(self).phase,
    {
        let ghost e0 = self.cached_images@;
        let mut i: usize = 0;
        while i < self.cached_images.len()
            invariant
                i <= self.cached_images.len(),
                self.cached_images@ == e0,
                e0 == old(self).cached_images@,
                names_unique(e0),
                no_error(self.script()),
                self.ast == old(self).ast,
                self.current_index == old(self).current_index,
                self.phase == old(self).phase,
                forall|k: int| 0 <= k < i ==> (#[trigger] e0[k]).name@ != image_name@,
            decreases self.cached_images.len() - i,
        {
            if self.cached_images[i].name == image_name {
                let ghost name = image_name@;
                self.cached_images.set(i, CachedImage { name: image_name, image: sprite });
                proof {
                    let e1 = self.cached_images@;
                    assert(e1[i as int].name@ == e0[i as int].name@);
                    assert forall|a: int| 0 <= a < e1.len() && a != i implies e1[a] == e0[a] by {}
                    assert forall|a: int, b: int|
                        0 <= a < e1.len() && 0 <= b < e1.len() && a != b implies (#[trigger] e1[a]).name@ != (#[trigger] e1[b]).name@ by {
                        assert(e0[a].name@ == e1[a].name@);
                        assert(e0[b].name@ == e1[b].name@);
                    }
                    assert forall|k: Seq<char>| #[trigger] cache_has(e1, k) == (cache_has(e0, k) || k == name) by {
                        if cache_has(e0, k) {
                            let j = choose|j: int| 0 <= j < e0.len() && (#[trigger] e0[j]).name@ == k;
                            if j == i {
                                assert(e1[i as int].name@ == k);
                            } else {
                                assert(e1[j].name@ == k);
                            }
                        }
                        if k == name {
                            assert(e1[i as int].name@ == k);
                        }
                        if cache_has(e1, k) {
                            let j = choose|j: int| 0 <= j < e1.len() && (#[trigger] e1[j]).name@ == k;
                            if j != i {
                                assert(e0[j].name@ == k);
                            }
                        }
                    }
                    assert(names_unique(e1));
                    let m0 = cache_map(e0);
                    let m1 = cache_map(e1);
                    assert forall|k: Seq<char>| m1.dom().contains(k) implies m1[k] == m0.insert(name, e1[i as int].image)[k] by {
                        let j = choose|j: int| 0 <= j < e1.len() && (#[trigger] e1[j]).name@ == k;
                        if k == name {
                            assert(j == i);
                        } else {
                            let j0 = choose|j: int| 0 <= j < e0.len() && (#[trigger] e0[j]).name@ == k;
                            assert(j0 != i);
                            assert(e1[j0].name@ == k);
                            assert(j == j0);
                        }
                    }
                    assert(m1 =~= m0.insert(name, e1[i as int].image));
                }
                return;
            }
            i = i + 1;
        }
        let ghost name = image_name@;
        self.cached_images.push(CachedImage { name: image_name, image: sprite });
        proof {
            let e1 = self.cached_images@;
            let n = e0.len() as int;
            assert(e1[n].name@ == name);
            assert forall|k: Seq<char>| #[trigger] cache_has(e1, k) == (cache_has(e0, k) || k == name) by {
                if cache_has(e0, k) {
                    let j = choose|j: int| 0 <= j < e0.len() && (#[trigger] e0[j]).name@ == k;
                    assert(e1[j].name@ == k);
                }
                if k == name {
                    assert(e1[n].name@ == k);
                }
            }
            assert(names_unique(e1));
            let m0 = cache_map(e0);
            let m1 = cache_map(e1);
            assert forall|k: Seq<char>| m1.dom().contains(k) implies m1[k] == m0.insert(name, e1[n].image)[k] by {
                let j = choose|j: int| 0 <= j < e1.len() && (#[trigger] e1[j]).name@ == k;
                if k == name {
                    assert(j == n);
                } else {
                    let j0 = choose|j: int| 0 <= j < e0.len() && (#[trigger] e0[j]).name@ == k;
                    assert(e1[j0].name@ == k);
                    assert(j == j0);
                }
            }
            assert(m1 =~= m0.insert(name, e1[n].image));
        }
    }
}

impl<S> NovelData<S> {
    /// How to obtain the image named `image`: from the cache when it holds
    /// the name, else from the file `"<image>.png"`.
    pub fn image_source(&self, image: &String) -> (r: ImageSource)
        ensures
            image_source_for(r, image@, self.image_cache().dom()),
    {
        if self.is_cached(image) {
            ImageSource::Cached { name: image.clone() }
        } else {
            ImageSource::Asset { file_name: image.clone().concat(".png") }
        }
    }

    /// Dispatches one instruction: the side effects it requests and whether
    /// playback then moves on or waits for input. A malformed instruction is
    /// refused. A jump does not move the position to its label: playback
    /// goes on with the next position, as after any other instruction.
    pub fn handle_new_node(&self, node: &Instruction) -> (r: Result<Dispatch, NovelError>)
        ensures
            node@ is Error <==> r is Err,
            r matches Err(e) ==> e == NovelError::MalformedInstruction,
            r matches Ok(d) ==> dispatched(node@, self.image_cache().dom(), d),
    {
        let mut effects: Vec<Effect> = Vec::new();
        match node {
            Instruction::Error => {
                return Err(NovelError::MalformedInstruction);
            },
            Instruction::Scene { image, .. } => {
                match image {
                    Some(img) => {
                        effects.push(Effect::SetBackground { image: self.image_source(img) });
                    },
                    None => {},
                }
                effects.push(Effect::HideCharacter);
            },
            Instruction::Show { image, .. } => {
                effects.push(Effect::SetCharacter { image: self.image_source(image) });
            },
            Instruction::Hide { .. } => {
                effects.push(Effect::HideCharacter);
            },
            Instruction::Play { mode, filename, .. } => {
                effects.push(Effect::PlayAudio { mode: *mode, filename: filename.clone() });
            },
            Instruction::Say { who, what, .. } => {
                let speaker = match who {
                    Some(w) => w.clone(),
                    None => String::new(),
                };
                effects.push(Effect::ShowText { who: speaker, what: what.clone() });
            },
            _ => {},
        }
        let advance = match node {
            Instruction::Say { .. } => Advance::AwaitInput,
            _ => Advance::Auto,
        };
        Ok(Dispatch { node: node.duplicate(), effects, advance })
    }

    /// One traversal step: past the end of the script nothing moves and
    /// `Ended` comes back; otherwise the position moves on by one and the
    /// instruction there is looked up, at top level first and then inside
    /// top-level labels.
    pub fn next_node(&mut self) -> (r: Traversal)
        requires
            old(self).wf(),
        ensures
            final(self).wf(),
            final(self).ast == old(self).ast,
            final(self).cached_images == old(self).cached_images,
            final(self).phase == old(self).phase,
            old(self).current_index >= max_index(old(self).script()) ==> {
                &&& r is Ended
                &&& final(self).current_index == old(self).current_index
            },
            old(self).current_index < max_index(old(self).script()) ==> {
                &&& final(self).current_index == old(self).current_index + 1
                &&& match r {
                    Traversal::Found(i) => lookup(old(self).script(), final(self).current_index) == Some(i@),
                    Traversal::Gap => lookup(old(self).script(), final(self).current_index) is None,
                    Traversal::Ended => false,
                }
            },
    {
        let max_index = max_position(&self.ast);
        if self.current_index >= max_index {
            return Traversal::Ended;
        }
        let next_index = self.current_index + 1;
        self.current_index = next_index;
        match find_next_element(&self.ast, next_index) {
            Some(i) => Traversal::Found(i),
            None => Traversal::Gap,
        }
    }
}

/// Where the position stands once the traversal has reported the end,
/// starting from `from`: the end of the script, or `from` if already past it.
pub open spec fn end_position(s: Seq<Node>, from: int) -> int {
    if from >= max_index(s) {
        from
    } else {
        max_index(s) as int
    }
}

/// The instructions that the traversal finds at the positions after `from`
/// up to `to`, in order; positions where it finds nothing are skipped.
pub open spec fn found_between(s: Seq<Node>, from: int, to: int) -> Seq<Node>
    decreases to - from,
{
    if to <= from {
        Seq::empty()
    } else {
        found_between(s, from, to - 1) + match lookup(s, to as usize) {
            Some(n) => seq![n],
            None => Seq::empty(),
        }
    }
}

/// One cascade from position `from`: the instructions found after it are
/// dispatched in order up to the first dialogue line, where playback waits,
/// or up to the end of the script, where it ends.
pub open spec fn cascade(
    s: Seq<Node>,
    cached: Set<Seq<char>>,
    from: int,
    to: int,
    phase: Phase,
    records: Seq<Dispatch>,
) -> bool {
    let found = found_between(s, from, to);
    &&& from <= to <= end_position(s, from)
    &&& phase is Ended || phase is AwaitingInput
    &&& phase is Ended ==> to == end_position(s, from)
    &&& phase is AwaitingInput <==> (records.len() > 0 && records.last().node@ is Say)
    &&& forall|k: int| 0 <= k < records.len() - 1 ==> !((#[trigger] records[k]).node@ is Say)
    &&& records.len() == found.len()
    &&& forall|k: int| 0 <= k < records.len() ==> dispatched(found[k], cached, #[trigger] records[k])
}

pub proof fn lemma_find_at_position(s: Seq<Node>, index: usize)
    ensures
        find_at(s, index) matches Some(n) ==> position_of(n) == Some(index),
    decreases s.len(),
{
    if s.len() > 0 {
        lemma_find_at_position(s.subrange(1, s.len() as int), index);
    }
}

pub proof fn lemma_lookup_position(s: Seq<Node>, index: usize)
    ensures
        lookup(s, index) matches Some(n) ==> position_of(n) == Some(index),
    decreases s.len(),
{
    lemma_find_at_position(s, index);
    if s.len() > 0 {
        if let Node::Label { body, .. } = s[0] {
            lemma_find_at_position(body, index);
        }
        lemma_lookup_position(s.subrange(1, s.len() as int), index);
    }
}

impl<S> NovelData<S> {
    /// Moves the position on until the traversal finds an instruction, and
    /// returns it; positions where it finds nothing are passed over. Returns
    /// `None` once the position reaches the end of the script.
    pub fn handle_switch_next_node(&mut self) -> (r: Option<Instruction>)
        requires
            old(self).wf(),
        ensures
            final(self).wf(),
            final(self).ast == old(self).ast,
            final(self).cached_images == old(self).cached_images,
            final(self).phase == old(self).phase,
            old(self).current_index <= final(self).current_index,
            r is None ==> final(self).current_index == end_position(old(self).script(), old(self).current_index as int),
            r is Some ==> old(self).current_index < final(self).current_index <= max_index(old(self).script()),
            final(self).current_index <= end_position(old(self).script(), old(self).current_index as int),
            r matches Some(i) ==> lookup(old(self).script(), final(self).current_index) == Some(i@),
            found_between(old(self).script(), old(self).current_index as int, final(self).current_index as int)
                == match r {
                    Some(i) => seq![i@],
                    None => Seq::<Node>::empty(),
                },
    {
        let ghost start = self.current_index as int;
        let ghost s = self.script();
        loop
            invariant
                self.wf(),
                self.ast == old(self).ast,
                self.cached_images == old(self).cached_images,
                self.phase == old(self).phase,
                s == self.script(),
                start == old(self).current_index,
                start <= self.current_index <= end_position(s, start),
                found_between(s, start, self.current_index as int) == Seq::<Node>::empty(),
            decreases max_index(s) - self.current_index,
        {
            let ghost before = self.current_index as int;
            match self.next_node() {
                Traversal::Ended => {
                    return None;
                },
                Traversal::Found(i) => {
                    assert(found_between(s, start, before + 1) =~= seq![i@]);
                    return Some(i);
                },
                Traversal::Gap => {
                    assert(found_between(s, start, before + 1) =~= Seq::<Node>::empty());
                },
            }
        }
    }

    /// Runs one cascade: moves through the script, dispatching each
    /// instruction found, until a dialogue line makes playback wait for input
    /// or the end of the script is reached. Returns the dispatches in order.
    /// A position where the traversal finds nothing is passed over within
    /// the same cascade. Once playback has ended nothing happens.
    pub fn advance(&mut self) -> (r: Vec<Dispatch>)
        requires
            old(self).wf(),
        ensures
            final(self).wf(),
            final(self).ast == old(self).ast,
            final(self).cached_images == old(self).cached_images,
            old(self).phase is Ended ==> {
                &&& r@.len() == 0
                &&& final(self).current_index == old(self).current_index
                &&& final(self).phase is Ended
            },
            !(old(self).phase is Ended) ==> cascade(
                old(self).script(),
                old(self).image_cache().dom(),
                old(self).current_index as int,
                final(self).current_index as int,
                final(self).phase,
                r@,
            ),
    {
        let mut records: Vec<Dispatch> = Vec::new();
        if self.phase == Phase::Ended {
            return records;
        }
        self.phase = Phase::Idle;
        let ghost start = self.current_index as int;
        let ghost s = self.script();
        let ghost cached = self.image_cache().dom();
        loop
            invariant
                self.wf(),
                self.ast == old(self).ast,
                self.cached_images == old(self).cached_images,
                self.phase == Phase::Idle,
                !(old(self).phase is Ended),
                s == self.script(),
                cached == self.image_cache().dom(),
                start == old(self).current_index,
                start <= self.current_index <= end_position(s, start),
                records@.len() == found_between(s, start, self.current_index as int).len(),
                forall|k: int| 0 <= k < records@.len() ==> !((#[trigger] records@[k]).node@ is Say),
                forall|k: int|
                    0 <= k < records@.len() ==> dispatched(
                        found_between(s, start, self.current_index as int)[k],
                        cached,
                        #[trigger] records@[k],
                    ),
            decreases max_index(s) - self.current_index,
        {
            let ghost before = self.current_index as int;
            let ghost found_before = found_between(s, start, before);
            let next = self.handle_switch_next_node();
            proof {
                let mid = self.current_index as int;
                assert(found_between(s, start, mid) =~= found_before + found_between(s, before, mid)) by {
                    lemma_found_between_split(s, start, before, mid);
                }
            }
            match next {
                None => {
                    self.phase = Phase::Ended;
                    return records;
                },
                Some(i) => {
                    proof {
                        lemma_lookup_position(s, self.current_index);
                    }
                    match self.handle_new_node(&i) {
                        Ok(d) => {
                            let waits = d.advance == Advance::AwaitInput;
                            records.push(d);
                            if waits {
                                self.phase = Phase::AwaitingInput;
                                return records;
                            }
                        },
                        Err(_) => {
                            return records;
                        },
                    }
                },
            }
        }
    }

    /// Loads a script and starts playing it: the position goes back to 0 and
    /// the first cascade runs at once. A script holding a malformed
    /// instruction at any depth is refused before playback starts, and
    /// nothing changes.
    pub fn handle_start_scenario(&mut self, ast: Vec<Instruction>) -> (r: Result<Vec<Dispatch>, NovelError>)
        requires
            old(self).wf(),
        ensures
            final(self).wf(),
            final(self).cached_images == old(self).cached_images,
            !no_error(script_view(ast)) ==> {
                &&& r == Err::<Vec<Dispatch>, NovelError>(NovelError::MalformedInstruction)
                &&& final(self).ast == old(self).ast
                &&& final(self).current_index == old(self).current_index
                &&& final(self).phase == old(self).phase
            },
            no_error(script_view(ast)) ==> {
                &&& r is Ok
                &&& final(self).ast == ast
                &&& cascade(
                    script_view(ast),
                    old(self).image_cache().dom(),
                    0,
                    final(self).current_index as int,
                    final(self).phase,
                    r->Ok_0@,
                )
            },
    {
        if !holds_no_error(&ast) {
            return Err(NovelError::MalformedInstruction);
        }
        self.ast = ast;
        self.current_index = 0;
        self.phase = Phase::Idle;
        Ok(self.advance())
    }
}

pub proof fn lemma_found_between_split(s: Seq<Node>, a: int, b: int, c: int)
    requires
        a <= b <= c,
    ensures
        found_between(s, a, c) == found_between(s, a, b) + found_between(s, b, c),
    decreases c - b,
{
    if c > b {
        lemma_found_between_split(s, a, b, c - 1);
        assert(found_between(s, a, c) =~= found_between(s, a, b) + found_between(s, b, c));
    } else {
        assert(found_between(s, b, c) =~= Seq::<Node>::empty());
        assert(found_between(s, a, c) =~= found_between(s, a, b) + found_between(s, b, c));
    }
}

impl<S> NovelData<S> {
    /// Injects `node` into the live script at its own position: in position
    /// order at top level, and also into the body of every top-level label
    /// whose positions bracket it. A malformed instruction, or one with a
    /// position the script already uses, is refused and nothing changes.
    pub fn inject_instruction(&mut self, node: Instruction) -> (r: Result<(), NovelError>)
        requires
            old(self).wf(),
        ensures
            final(self).wf(),
            final(self).cached_images == old(self).cached_images,
            final(self).current_index == old(self).current_index,
            final(self).phase == old(self).phase,
            !node_ok(node@) ==> r == Err::<(), NovelError>(NovelError::MalformedInstruction),
            node_ok(node@) && collides(old(self).script(), node@) ==> r == Err::<(), NovelError>(
                NovelError::PositionCollision,
            ),
            r is Err ==> final(self).ast == old(self).ast,
            node_ok(node@) && !collides(old(self).script(), node@) ==> {
                &&& r is Ok
                &&& final(self).script() == injected(
                    old(self).script(),
                    node@,
                    position_of(node@)->0,
                )
            },
    {
        if !instruction_is_well_formed(&node) {
            return Err(NovelError::MalformedInstruction);
        }
        let p = match node.position() {
            Some(p) => p,
            None => {
                return Err(NovelError::MalformedInstruction);
            },
        };
        if collides_with(&self.ast, &node) {
            return Err(NovelError::PositionCollision);
        }
        proof {
            lemma_injected_no_error(self.script(), node@, p);
        }
        let mut ast = inject_into_labels(&self.ast, &node, p);
        insert_in_order(&mut ast, node, p);
        self.ast = ast;
        Ok(())
    }

    /// Injects a dialogue line at position `index`.
    pub fn push_text_node(&mut self, who: Option<String>, what: String, index: usize) -> (r: Result<(), NovelError>)
        requires
            old(self).wf(),
        ensures
            final(self).wf(),
            final(self).cached_images == old(self).cached_images,
            final(self).current_index == old(self).current_index,
            final(self).phase == old(self).phase,
            ({
                let n = Node::Say { position: index, who: opt_view(who), what: what@ };
                &&& collides(old(self).script(), n) ==> r == Err::<(), NovelError>(NovelError::PositionCollision)
                    && final(self).ast == old(self).ast
                &&& !collides(old(self).script(), n) ==> r is Ok && final(self).script() == injected(
                    old(self).script(),
                    n,
                    index,
                )
            }),
    {
        self.inject_instruction(Instruction::Say { position: index, who, what })
    }

    /// Injects a character image display at position `index`.
    pub fn push_show_node(&mut self, image: String, index: usize) -> (r: Result<(), NovelError>)
        requires
            old(self).wf(),
        ensures
            final(self).wf(),
            final(self).cached_images == old(self).cached_images,
            final(self).current_index == old(self).current_index,
            final(self).phase == old(self).phase,
            ({
                let n = Node::Show { position: index, image: image@ };
                &&& collides(old(self).script(), n) ==> r == Err::<(), NovelError>(NovelError::PositionCollision)
                    && final(self).ast == old(self).ast
                &&& !collides(old(self).script(), n) ==> r is Ok && final(self).script() == injected(
                    old(self).script(),
                    n,
                    index,
                )
            }),
    {
        self.inject_instruction(Instruction::Show { position: index, image })
    }

    /// Injects the hiding of a character image at position `index`.
    pub fn push_hide_node(&mut self, image: String, index: usize) -> (r: Result<(), NovelError>)
        requires
            old(self).wf(),
        ensures
            final(self).wf(),
            final(self).cached_images == old(self).cached_images,
            final(self).current_index == old(self).current_index,
            final(self).phase == old(self).phase,
            ({
                let n = Node::Hide { position: index, image: image@ };
                &&& collides(old(self).script(), n) ==> r == Err::<(), NovelError>(NovelError::PositionCollision)
                    && final(self).ast == old(self).ast
                &&& !collides(old(self).script(), n) ==> r is Ok && final(self).script() == injected(
                    old(self).script(),
                    n,
                    index,
                )
            }),
    {
        self.inject_instruction(Instruction::Hide { position: index, image })
    }

    /// Injects a background change at position `index`, on the layer
    /// `"master"`.
    pub fn push_scene_node(&mut self, image: String, index: usize) -> (r: Result<(), NovelError>)
        requires
            old(self).wf(),
        ensures
            final(self).wf(),
            final(self).cached_images == old(self).cached_images,
            final(self).current_index == old(self).current_index,
            final(self).phase == old(self).phase,
            ({
                let n = Node::Scene { position: index, image: Some(image@), layer: "master"@ };
                &&& collides(old(self).script(), n) ==> r == Err::<(), NovelError>(NovelError::PositionCollision)
                    && final(self).ast == old(self).ast
                &&& !collides(old(self).script(), n) ==> r is Ok && final(self).script() == injected(
                    old(self).script(),
                    n,
                    index,
                )
            }),
    {
        let layer = String::from_str("master");
        self.inject_instruction(Instruction::Scene { position: index, image: Some(image), layer })
    }
}

} // verus!
