use vstd::prelude::*;

verus! {

/// The three channels an audio cue can be played on.
#[derive(Clone, Copy, Debug, PartialEq, Eq, Structural)]
pub enum AudioMode {
    Sound,
    Music,
    Voice,
}

/// One directive of a parsed script. Every variant but `Error` carries the
/// position that the parser gave it; positions are numbered across the whole
/// script, nested label bodies included.
#[allow(inconsistent_fields)]
#[derive(Debug, PartialEq)]
pub enum Instruction {
    Return { position: usize, value: Option<String> },
    Jump { position: usize, label: String, expression: bool },
    Scene { position: usize, image: Option<String>, layer: String },
    Show { position: usize, image: String },
    Hide { position: usize, image: String },
    Label { position: usize, name: String, body: Vec<Instruction>, options: Option<String> },
    Say { position: usize, who: Option<String>, what: String },
    Play { position: usize, mode: AudioMode, filename: String },
    Define { position: usize, definition: String },
    Stop { position: usize, channel: String, effect: Option<String> },
    GameMechanic { position: usize, mechanic: String },
    LLMGenerate { position: usize, character: String, prompt: Option<String> },
    SceneGenerate { position: usize, prompt: String },
    MusicGenerate { position: usize, prompt: String },
    Comment { position: usize, text: String },
    UserStatement { position: usize, statement: String },
    Error,
}

/// What an instruction holds, as mathematical values.
#[allow(inconsistent_fields)]
pub enum Node {
    Return { position: usize, value: Option<Seq<char>> },
    Jump { position: usize, label: Seq<char>, expression: bool },
    Scene { position: usize, image: Option<Seq<char>>, layer: Seq<char> },
    Show { position: usize, image: Seq<char> },
    Hide { position: usize, image: Seq<char> },
    Label { position: usize, name: Seq<char>, body: Seq<Node>, options: Option<Seq<char>> },
    Say { position: usize, who: Option<Seq<char>>, what: Seq<char> },
    Play { position: usize, mode: AudioMode, filename: Seq<char> },
    Define { position: usize, definition: Seq<char> },
    Stop { position: usize, channel: Seq<char>, effect: Option<Seq<char>> },
    GameMechanic { position: usize, mechanic: Seq<char> },
    LLMGenerate { position: usize, character: Seq<char>, prompt: Option<Seq<char>> },
    SceneGenerate { position: usize, prompt: Seq<char> },
    MusicGenerate { position: usize, prompt: Seq<char> },
    Comment { position: usize, text: Seq<char> },
    UserStatement { position: usize, statement: Seq<char> },
    Error,
}

pub open spec fn opt_view(o: Option<String>) -> Option<Seq<char>> {
    match o {
        Some(s) => Some(s@),
        None => None,
    }
}

/// The model of one instruction.
pub open spec fn node_of(i: Instruction) -> Node
    decreases i, 1nat,
{
    match i {
        Instruction::Return { position, value } => Node::Return { position, value: opt_view(value) },
        Instruction::Jump { position, label, expression } => Node::Jump {
            position,
            label: label@,
            expression,
        },
        Instruction::Scene { position, image, layer } => Node::Scene {
            position,
            image: opt_view(image),
            layer: layer@,
        },
        Instruction::Show { position, image } => Node::Show { position, image: image@ },
        Instruction::Hide { position, image } => Node::Hide { position, image: image@ },
        Instruction::Label { position, name, body, options } => Node::Label {
            position,
            name: name@,
            body: nodes_of(body@),
            options: opt_view(options),
        },
        Instruction::Say { position, who, what } => Node::Say {
            position,
            who: opt_view(who),
            what: what@,
        },
        Instruction::Play { position, mode, filename } => Node::Play {
            position,
            mode,
            filename: filename@,
        },
        Instruction::Define { position, definition } => Node::Define {
            position,
            definition: definition@,
        },
        Instruction::Stop { position, channel, effect } => Node::Stop {
            position,
            channel: channel@,
            effect: opt_view(effect),
        },
        Instruction::GameMechanic { position, mechanic } => Node::GameMechanic {
            position,
            mechanic: mechanic@,
        },
        Instruction::LLMGenerate { position, character, prompt } => Node::LLMGenerate {
            position,
            character: character@,
            prompt: opt_view(prompt),
        },
        Instruction::SceneGenerate { position, prompt } => Node::SceneGenerate {
            position,
            prompt: prompt@,
        },
        Instruction::MusicGenerate { position, prompt } => Node::MusicGenerate {
            position,
            prompt: prompt@,
        },
        Instruction::Comment { position, text } => Node::Comment { position, text: text@ },
        Instruction::UserStatement { position, statement } => Node::UserStatement {
            position,
            statement: statement@,
        },
        Instruction::Error => Node::Error,
    }
}

/// The model of a sequence of instructions, element by element.
pub open spec fn nodes_of(s: Seq<Instruction>) -> Seq<Node>
    decreases s, 0nat,
{
    if s.len() == 0 {
        Seq::empty()
    } else {
        nodes_of(s.drop_last()).push(node_of(s.last()))
    }
}

impl View for Instruction {
    type V = Node;

    open spec fn view(&self) -> Node {
        node_of(*self)
    }
}

/// The model of a script.
pub open spec fn script_view(v: Vec<Instruction>) -> Seq<Node> {
    nodes_of(v@)
}

pub proof fn lemma_nodes_of(s: Seq<Instruction>)
    ensures
        nodes_of(s).len() == s.len(),
        forall|k: int| 0 <= k < s.len() ==> #[trigger] nodes_of(s)[k] == node_of(s[k]),
    decreases s.len(),
{
    if s.len() > 0 {
        lemma_nodes_of(s.drop_last());
    }
}

/// The position of an instruction; `None` for a malformed one.
pub open spec fn position_of(i: Node) -> Option<usize> {
    match i {
        Node::Return { position, .. } => Some(position),
        Node::Jump { position, .. } => Some(position),
        Node::Scene { position, .. } => Some(position),
        Node::Show { position, .. } => Some(position),
        Node::Hide { position, .. } => Some(position),
        Node::Label { position, .. } => Some(position),
        Node::Say { position, .. } => Some(position),
        Node::Play { position, .. } => Some(position),
        Node::Define { position, .. } => Some(position),
        Node::Stop { position, .. } => Some(position),
        Node::GameMechanic { position, .. } => Some(position),
        Node::LLMGenerate { position, .. } => Some(position),
        Node::SceneGenerate { position, .. } => Some(position),
        Node::MusicGenerate { position, .. } => Some(position),
        Node::Comment { position, .. } => Some(position),
        Node::UserStatement { position, .. } => Some(position),
        Node::Error => None,
    }
}

/// The positions of the instructions of `s` itself, in order, without
/// descending into label bodies.
pub open spec fn top_positions(s: Seq<Node>) -> Seq<usize>
    decreases s.len(),
{
    if s.len() == 0 {
        Seq::empty()
    } else {
        top_positions(s.drop_last()) + match position_of(s.last()) {
            Some(p) => seq![p],
            None => Seq::empty(),
        }
    }
}

/// Every position of a script: first those of its own instructions, then,
/// label by label in document order, every position of each label's body.
pub open spec fn indices_of(s: Seq<Node>) -> Seq<usize>
    decreases s, 1nat,
{
    top_positions(s) + label_indices(s)
}

/// The positions found inside the label bodies of `s`, at any depth.
pub open spec fn label_indices(s: Seq<Node>) -> Seq<usize>
    decreases s, 0nat,
{
    if s.len() == 0 {
        Seq::empty()
    } else {
        label_indices(s.drop_last()) + match s.last() {
            Node::Label { body, .. } => indices_of(body),
            _ => Seq::empty(),
        }
    }
}

/// An instruction is not malformed, and neither is any instruction of its
/// body, at any depth.
pub open spec fn node_ok(n: Node) -> bool
    decreases n, 1nat,
{
    match n {
        Node::Error => false,
        Node::Label { body, .. } => no_error(body),
        _ => true,
    }
}

/// No instruction of `s`, at any depth, is malformed.
pub open spec fn no_error(s: Seq<Node>) -> bool
    decreases s, 0nat,
{
    if s.len() == 0 {
        true
    } else {
        no_error(s.drop_last()) && node_ok(s.last())
    }
}

pub proof fn lemma_no_error(s: Seq<Node>)
    ensures
        no_error(s) == forall|k: int| 0 <= k < s.len() ==> #[trigger] node_ok(s[k]),
    decreases s.len(),
{
    if s.len() > 0 {
        lemma_no_error(s.drop_last());
        if no_error(s) {
            assert forall|k: int| 0 <= k < s.len() implies #[trigger] node_ok(s[k]) by {
                if k < s.len() - 1 {
                    assert(s.drop_last()[k] == s[k]);
                }
            }
        }
        if forall|k: int| 0 <= k < s.len() ==> #[trigger] node_ok(s[k]) {
            assert forall|k: int| 0 <= k < s.drop_last().len() implies #[trigger] node_ok(s.drop_last()[k]) by {
                assert(s.drop_last()[k] == s[k]);
            }
            assert(node_ok(s[s.len() - 1]));
        }
    }
}

/// The largest value of `q`, or 0 for an empty sequence.
pub open spec fn seq_max(q: Seq<usize>) -> usize
    decreases q.len(),
{
    if q.len() == 0 {
        0
    } else if seq_max(q.drop_last()) >= q.last() {
        seq_max(q.drop_last())
    } else {
        q.last()
    }
}

/// The end-of-script sentinel: the largest position anywhere in the script.
pub open spec fn max_index(s: Seq<Node>) -> usize {
    seq_max(indices_of(s))
}

/// The first instruction of `s` whose position is `index`, at top level only.
pub open spec fn find_at(s: Seq<Node>, index: usize) -> Option<Node>
    decreases s.len(),
{
    if s.len() == 0 {
        None
    } else if position_of(s[0]) == Some(index) {
        Some(s[0])
    } else {
        find_at(s.subrange(1, s.len() as int), index)
    }
}

/// Searches the bodies of the top-level labels of `s`, in document order,
/// for the instruction at `index`; deeper nesting is not searched.
pub open spec fn find_in_labels(s: Seq<Node>, index: usize) -> Option<Node>
    decreases s.len(),
{
    if s.len() == 0 {
        None
    } else {
        let here = match s[0] {
            Node::Label { body, .. } => find_at(body, index),
            _ => None,
        };
        if here is Some {
            here
        } else {
            find_in_labels(s.subrange(1, s.len() as int), index)
        }
    }
}

/// The instruction that the traversal finds at `index`: at top level first,
/// then one level down inside labels.
pub open spec fn lookup(s: Seq<Node>, index: usize) -> Option<Node> {
    match find_at(s, index) {
        Some(i) => Some(i),
        None => find_in_labels(s, index),
    }
}

/// A copy of an optional string that Verus knows to be equal to it.
pub fn copy_opt(o: &Option<String>) -> (r: Option<String>)
    ensures
        r == *o,
{
    match o {
        Some(s) => Some(s.clone()),
        None => None,
    }
}

impl Instruction {
    /// The position of this instruction; `None` for `Error`.
    pub fn position(&self) -> (r: Option<usize>)
        ensures
            r == position_of(self@),
    {
        match self {
            Instruction::Return { position, .. } => Some(*position),
            Instruction::Jump { position, .. } => Some(*position),
            Instruction::Scene { position, .. } => Some(*position),
            Instruction::Show { position, .. } => Some(*position),
            Instruction::Hide { position, .. } => Some(*position),
            Instruction::Label { position, .. } => Some(*position),
            Instruction::Say { position, .. } => Some(*position),
            Instruction::Play { position, .. } => Some(*position),
            Instruction::Define { position, .. } => Some(*position),
            Instruction::Stop { position, .. } => Some(*position),
            Instruction::GameMechanic { position, .. } => Some(*position),
            Instruction::LLMGenerate { position, .. } => Some(*position),
            Instruction::SceneGenerate { position, .. } => Some(*position),
            Instruction::MusicGenerate { position, .. } => Some(*position),
            Instruction::Comment { position, .. } => Some(*position),
            Instruction::UserStatement { position, .. } => Some(*position),
            Instruction::Error => None,
        }
    }

    /// A deep copy, equal to the original.
    pub fn duplicate(&self) -> (r: Instruction)
        ensures
            r@ == self@,
        decreases self,
    {
        match self {
            Instruction::Return { position, value } => Instruction::Return {
                position: *position,
                value: copy_opt(value),
            },
            Instruction::Jump { position, label, expression } => Instruction::Jump {
                position: *position,
                label: label.clone(),
                expression: *expression,
            },
            Instruction::Scene { position, image, layer } => Instruction::Scene {
                position: *position,
                image: copy_opt(image),
                layer: layer.clone(),
            },
            Instruction::Show { position, image } => Instruction::Show {
                position: *position,
                image: image.clone(),
            },
            Instruction::Hide { position, image } => Instruction::Hide {
                position: *position,
                image: image.clone(),
            },
            Instruction::Label { position, name, body, options } => Instruction::Label {
                position: *position,
                name: name.clone(),
                body: duplicate_all(body),
                options: copy_opt(options),
            },
            Instruction::Say { position, who, what } => Instruction::Say {
                position: *position,
                who: copy_opt(who),
                what: what.clone(),
            },
            Instruction::Play { position, mode, filename } => Instruction::Play {
                position: *position,
                mode: *mode,
                filename: filename.clone(),
            },
            Instruction::Define { position, definition } => Instruction::Define {
                position: *position,
                definition: definition.clone(),
            },
            Instruction::Stop { position, channel, effect } => Instruction::Stop {
                position: *position,
                channel: channel.clone(),
                effect: copy_opt(effect),
            },
            Instruction::GameMechanic { position, mechanic } => Instruction::GameMechanic {
                position: *position,
                mechanic: mechanic.clone(),
            },
            Instruction::LLMGenerate { position, character, prompt } => Instruction::LLMGenerate {
                position: *position,
                character: character.clone(),
                prompt: copy_opt(prompt),
            },
            Instruction::SceneGenerate { position, prompt } => Instruction::SceneGenerate {
                position: *position,
                prompt: prompt.clone(),
            },
            Instruction::MusicGenerate { position, prompt } => Instruction::MusicGenerate {
                position: *position,
                prompt: prompt.clone(),
            },
            Instruction::Comment { position, text } => Instruction::Comment {
                position: *position,
                text: text.clone(),
            },
            Instruction::UserStatement { position, statement } => Instruction::UserStatement {
                position: *position,
                statement: statement.clone(),
            },
            Instruction::Error => Instruction::Error,
        }
    }
}

impl Clone for Instruction {
    fn clone(&self) -> (r: Instruction)
        ensures
            r@ == self@,
    {
        self.duplicate()
    }
}

/// A deep copy of a sequence of instructions, equal to it.
pub fn duplicate_all(v: &Vec<Instruction>) -> (r: Vec<Instruction>)
    ensures
        nodes_of(r@) == nodes_of(v@),
    decreases v@,
{
    let mut r: Vec<Instruction> = Vec::new();
    let mut i: usize = 0;
    while i < v.len()
        invariant
            i <= v.len(),
            r@.len() == i,
            forall|k: int| 0 <= k < i ==> #[trigger] r@[k]@ == v@[k]@,
        decreases v.len() - i,
    {
        proof {
            assert(decreases_to!(v@ => v@[i as int]));
        }
        r.push(v[i].duplicate());
        i = i + 1;
    }
    proof {
        lemma_nodes_of(r@);
        lemma_nodes_of(v@);
        assert forall|k: int| 0 <= k < r@.len() implies nodes_of(r@)[k] == nodes_of(v@)[k] by {
            assert(r@[k]@ == v@[k]@);
        }
        assert(nodes_of(r@) =~= nodes_of(v@));
    }
    r
}

/// `s` without its double quotes.
pub open spec fn without_quotes(s: Seq<char>) -> Seq<char>
    decreases s.len(),
{
    if s.len() == 0 {
        Seq::empty()
    } else if s.last() == '"' {
        without_quotes(s.drop_last())
    } else {
        without_quotes(s.drop_last()).push(s.last())
    }
}

/// The audio mode that a word names, if any.
pub open spec fn audio_mode_of(word: Seq<char>) -> Option<AudioMode> {
    if word == "sound"@ {
        Some(AudioMode::Sound)
    } else if word == "music"@ {
        Some(AudioMode::Music)
    } else if word == "voice"@ {
        Some(AudioMode::Voice)
    } else {
        None
    }
}

/// Whether the characters of `v` are those of `w`.
pub fn chars_equal(v: &Vec<char>, w: &str) -> (r: bool)
    ensures
        r == (v@ == w@),
{
    let n = w.unicode_len();
    if v.len() != n {
        return false;
    }
    let mut i: usize = 0;
    while i < n
        invariant
            i <= n,
            n == v@.len(),
            n == w@.len(),
            forall|k: int| 0 <= k < i ==> v@[k] == w@[k],
        decreases n - i,
    {
        if v[i] != w.get_char(i) {
            return false;
        }
        i = i + 1;
    }
    assert(v@ =~= w@);
    true
}

impl AudioMode {
    /// Reads an audio mode from the word a script gives it, double quotes
    /// ignored: `sound`, `music` or `voice`.
    pub fn parse(s: &str) -> (r: Result<AudioMode, ()>)
        ensures
            r == (match audio_mode_of(without_quotes(s@)) {
                Some(m) => Ok(m),
                None => Err(()),
            }),
    {
        let n = s.unicode_len();
        let mut word: Vec<char> = Vec::new();
        let mut i: usize = 0;
        while i < n
            invariant
                i <= n,
                n == s@.len(),
                word@ == without_quotes(s@.subrange(0, i as int)),
            decreases n - i,
        {
            assert(s@.subrange(0, i + 1).drop_last() =~= s@.subrange(0, i as int));
            let c = s.get_char(i);
            if c != '"' {
                word.push(c);
            }
            i = i + 1;
        }
        assert(s@.subrange(0, n as int) =~= s@);
        if chars_equal(&word, "sound") {
            Ok(AudioMode::Sound)
        } else if chars_equal(&word, "music") {
            Ok(AudioMode::Music)
        } else if chars_equal(&word, "voice") {
            Ok(AudioMode::Voice)
        } else {
            Err(())
        }
    }
}

impl std::str::FromStr for AudioMode {
    type Err = ();

    fn from_str(s: &str) -> (r: Result<AudioMode, ()>)
        ensures
            r == (match audio_mode_of(without_quotes(s@)) {
                Some(m) => Ok(m),
                None => Err(()),
            }),
    {
        AudioMode::parse(s)
    }
}

} // verus!
