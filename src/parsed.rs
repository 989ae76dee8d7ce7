use vstd::prelude::*;

use renpy_parser::parsers::AST;

use crate::engine::NovelError;
use crate::text_checks::{
    chars_of, find_wide_escape, find_wide_fade_length, has_wide_escape, has_wide_fade_length,
};
use crate::script::{
    audio_mode_of, opt_view, script_view, without_quotes, AudioMode, Instruction, Node,
};

verus! {

#[verifier::external_type_specification]
pub struct ExAst(AST);

/// What the parser makes of a script's text: its statements, or `None` when
/// it reports an error.
pub uninterp spec fn parsed_scenario(content: Seq<char>) -> Option<Seq<AST>>;

/// Text that the parser may panic on: a `\u` escape between string quotes
/// that it cannot decode to a single byte, or a line ending in `fadeout`, a
/// space and a length with a character outside ASCII (where the digits of
/// other scripts lie). Both are judged on the raw text, without the parser's
/// view of statements and strings.
pub open spec fn unparseable(s: Seq<char>) -> bool {
    has_wide_escape(s) || has_wide_fade_length(s)
}

/// Relies on `renpy_parser::parse_scenario_from_string`: the statements of a
/// script's text, which depend on the text alone (the list of error messages
/// it also returns is dropped). It panics on a `\u` escape of one to four
/// hexadecimal digits with a value of 0x80 or more (it decodes the value as
/// one UTF-8 byte), and on a `stop ... fadeout` length whose digits are not
/// ASCII (it reads them as an `f32` and unwraps); no such text goes in.
#[verifier::external_body]
fn parse_scenario(content: &str) -> (r: Option<Vec<AST>>)
    requires
        !unparseable(content@),
    ensures
        parsed_scenario(content@) == (match r {
            Some(v) => Some(v@),
            None => None,
        }),
{
    renpy_parser::parse_scenario_from_string(content, "_").ok().map(|parsed| parsed.0)
}

/// The instruction a parsed statement stands for; `None` for a statement the
/// parser marked as an error, or for an audio cue with an unknown mode, here
/// or anywhere in a label's body.
pub open spec fn node_from_ast(a: AST) -> Option<Node>
    decreases a, 1nat,
{
    match a {
        AST::Define(position, definition) => Some(Node::Define { position, definition: definition@ }),
        AST::Hide(position, image) => Some(Node::Hide { position, image: image@ }),
        AST::Jump(position, label, expression) => Some(Node::Jump { position, label: label@, expression }),
        AST::Label(position, name, body, options) => match nodes_from_ast(body@) {
            Some(nodes) => Some(
                Node::Label { position, name: name@, body: nodes, options: opt_view(options) },
            ),
            None => None,
        },
        AST::Play(position, mode, filename) => match audio_mode_of(without_quotes(mode@)) {
            Some(m) => Some(Node::Play { position, mode: m, filename: filename@ }),
            None => None,
        },
        AST::Return(position, value) => Some(Node::Return { position, value: opt_view(value) }),
        AST::Say(position, who, what) => Some(Node::Say { position, who: opt_view(who), what: what@ }),
        AST::Scene(position, image, layer) => Some(
            Node::Scene { position, image: opt_view(image), layer: layer@ },
        ),
        AST::Show(position, image) => Some(Node::Show { position, image: image@ }),
        AST::Stop(position, channel, effect, _) => Some(
            Node::Stop { position, channel: channel@, effect: opt_view(effect) },
        ),
        AST::GameMechanic(position, mechanic) => Some(Node::GameMechanic { position, mechanic: mechanic@ }),
        AST::LLMGenerate(position, character, prompt) => Some(
            Node::LLMGenerate { position, character: character@, prompt: opt_view(prompt) },
        ),
        AST::SceneGenerate(position, prompt) => Some(Node::SceneGenerate { position, prompt: prompt@ }),
        AST::MusicGenerate(position, prompt) => Some(Node::MusicGenerate { position, prompt: prompt@ }),
        AST::Comment(position, text) => Some(Node::Comment { position, text: text@ }),
        AST::Error => None,
    }
}

/// The instructions a sequence of parsed statements stands for, or `None`
/// when any of them has none.
pub open spec fn nodes_from_ast(s: Seq<AST>) -> Option<Seq<Node>>
    decreases s, 0nat,
{
    if s.len() == 0 {
        Some(Seq::empty())
    } else {
        match (nodes_from_ast(s.drop_last()), node_from_ast(s.last())) {
            (Some(front), Some(n)) => Some(front.push(n)),
            _ => None,
        }
    }
}

/// Turns one parsed statement into an instruction. A statement the parser
/// marked as an error, or an audio cue with an unknown mode, is malformed.
pub fn instruction_from_ast(a: &AST) -> (r: Result<Instruction, NovelError>)
    ensures
        match node_from_ast(*a) {
            Some(n) => r matches Ok(i) && i@ == n,
            None => r == Err::<Instruction, NovelError>(NovelError::MalformedInstruction),
        },
    decreases a, 1nat,
{
    match a {
        AST::Define(position, definition) => Ok(
            Instruction::Define { position: *position, definition: definition.clone() },
        ),
        AST::Hide(position, image) => Ok(Instruction::Hide { position: *position, image: image.clone() }),
        AST::Jump(position, label, expression) => Ok(
            Instruction::Jump { position: *position, label: label.clone(), expression: *expression },
        ),
        AST::Label(position, name, body, options) => {
            match script_from_ast(body) {
                Ok(instructions) => Ok(
                    Instruction::Label {
                        position: *position,
                        name: name.clone(),
                        body: instructions,
                        options: crate::script::copy_opt(options),
                    },
                ),
                Err(e) => Err(e),
            }
        },
        AST::Play(position, mode, filename) => {
            match AudioMode::parse(mode.as_str()) {
                Ok(m) => Ok(Instruction::Play { position: *position, mode: m, filename: filename.clone() }),
                Err(_) => Err(NovelError::MalformedInstruction),
            }
        },
        AST::Return(position, value) => Ok(
            Instruction::Return { position: *position, value: crate::script::copy_opt(value) },
        ),
        AST::Say(position, who, what) => Ok(
            Instruction::Say { position: *position, who: crate::script::copy_opt(who), what: what.clone() },
        ),
        AST::Scene(position, image, layer) => Ok(
            Instruction::Scene {
                position: *position,
                image: crate::script::copy_opt(image),
                layer: layer.clone(),
            },
        ),
        AST::Show(position, image) => Ok(Instruction::Show { position: *position, image: image.clone() }),
        AST::Stop(position, channel, effect, _) => Ok(
            Instruction::Stop {
                position: *position,
                channel: channel.clone(),
                effect: crate::script::copy_opt(effect),
            },
        ),
        AST::GameMechanic(position, mechanic) => Ok(
            Instruction::GameMechanic { position: *position, mechanic: mechanic.clone() },
        ),
        AST::LLMGenerate(position, character, prompt) => Ok(
            Instruction::LLMGenerate {
                position: *position,
                character: character.clone(),
                prompt: crate::script::copy_opt(prompt),
            },
        ),
        AST::SceneGenerate(position, prompt) => Ok(
            Instruction::SceneGenerate { position: *position, prompt: prompt.clone() },
        ),
        AST::MusicGenerate(position, prompt) => Ok(
            Instruction::MusicGenerate { position: *position, prompt: prompt.clone() },
        ),
        AST::Comment(position, text) => Ok(Instruction::Comment { position: *position, text: text.clone() }),
        AST::Error => Err(NovelError::MalformedInstruction),
    }
}

/// Turns the statements of a parsed script into a script. Fails with
/// `MalformedInstruction` when any statement, at any depth, is malformed.
pub fn script_from_ast(ast: &Vec<AST>) -> (r: Result<Vec<Instruction>, NovelError>)
    ensures
        match nodes_from_ast(ast@) {
            Some(nodes) => r matches Ok(v) && script_view(v) == nodes,
            None => r == Err::<Vec<Instruction>, NovelError>(NovelError::MalformedInstruction),
        },
    decreases ast@, 0nat,
{
    let mut out: Vec<Instruction> = Vec::new();
    let mut i: usize = 0;
    while i < ast.len()
        invariant
            i <= ast.len(),
            nodes_from_ast(ast@.subrange(0, i as int)) == Some(script_view(out)),
        decreases ast.len() - i,
    {
        assert(ast@.subrange(0, i + 1).drop_last() =~= ast@.subrange(0, i as int));
        proof {
            assert(decreases_to!(ast@ => ast@[i as int]));
        }
        match instruction_from_ast(&ast[i]) {
            Ok(instruction) => {
                let ghost before = out@;
                out.push(instruction);
                proof {
                    assert(out@.drop_last() =~= before);
                }
            },
            Err(e) => {
                proof {
                    lemma_prefix_fails(ast@, i as int + 1);
                }
                return Err(e);
            },
        }
        i = i + 1;
    }
    assert(ast@.subrange(0, ast.len() as int) =~= ast@);
    Ok(out)
}

/// A sequence fails to convert as soon as one of its prefixes does.
pub proof fn lemma_prefix_fails(s: Seq<AST>, j: int)
    requires
        0 <= j <= s.len(),
        nodes_from_ast(s.subrange(0, j)) is None,
    ensures
        nodes_from_ast(s) is None,
    decreases s.len() - j,
{
    if j < s.len() {
        assert(s.subrange(0, j + 1).drop_last() =~= s.subrange(0, j));
        lemma_prefix_fails(s, j + 1);
    } else {
        assert(s.subrange(0, j) =~= s);
    }
}

/// The script that a source text stands for: `None` when the parser reports
/// an error, else the conversion of its statements.
pub open spec fn script_of_text(content: Seq<char>) -> Option<Option<Seq<Node>>> {
    match parsed_scenario(content) {
        Some(statements) => Some(nodes_from_ast(statements)),
        None => None,
    }
}

/// Parses a script's source text into a script. Text that the parser
/// cannot take (see `unparseable`), or that it rejects, fails with
/// `ParseFailure`; a statement that has no instruction fails with
/// `MalformedInstruction`.
///
/// The test for what the parser cannot take looks at the raw text, because
/// telling statements and strings apart is the parser's own work, done
/// behind the call. So some texts the parser would read are refused too: a
/// wide `\u` escape that lies outside any string or inside a raw `r"..."`
/// string while quotes stand before and after it, and a fade-out length
/// with characters outside ASCII at the end of a line that is not a `stop`
/// statement (a comment, say).
pub fn load_script(content: &str) -> (r: Result<Vec<Instruction>, NovelError>)
    ensures
        unparseable(content@) ==> r == Err::<Vec<Instruction>, NovelError>(NovelError::ParseFailure),
        !unparseable(content@) ==> match script_of_text(content@) {
            None => r == Err::<Vec<Instruction>, NovelError>(NovelError::ParseFailure),
            Some(None) => r == Err::<Vec<Instruction>, NovelError>(NovelError::MalformedInstruction),
            Some(Some(nodes)) => r matches Ok(v) && script_view(v) == nodes,
        },
{
    let chars = chars_of(content);
    if find_wide_escape(&chars) || find_wide_fade_length(&chars) {
        return Err(NovelError::ParseFailure);
    }
    match parse_scenario(content) {
        Some(statements) => script_from_ast(&statements),
        None => Err(NovelError::ParseFailure),
    }
}

} // verus!
