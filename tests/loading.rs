use bevy_novel::{instruction_from_ast, load_script, script_from_ast, AudioMode, Instruction, NovelError};
use renpy_parser::parsers::AST;

#[test]
fn load_script_reads_labels_and_dialogue() {
    let script = load_script("label start:\n    \"Hello\"\n    play music \"theme.ogg\"\n").unwrap();
    assert_eq!(script.len(), 1);
    match &script[0] {
        Instruction::Label { position, body, .. } => {
            assert_eq!(*position, 1);
            assert_eq!(body.len(), 2);
            assert_eq!(
                body[0],
                Instruction::Say { position: 2, who: None, what: "Hello".to_string() }
            );
            assert!(matches!(
                &body[1],
                Instruction::Play { position: 3, mode: AudioMode::Music, .. }
            ));
        }
        other => panic!("expected a label, got {:?}", other),
    }
}

#[test]
fn load_script_refuses_unicode_escapes() {
    assert_eq!(load_script("\"caf\\u00e9\"\n"), Err(NovelError::ParseFailure));
}

#[test]
fn conversion_keeps_positions_and_text() {
    let ast = vec![
        AST::Scene(1, Some("bg".to_string()), "master".to_string()),
        AST::Say(2, Some("eve".to_string()), "hi".to_string()),
        AST::Play(3, "\"voice\"".to_string(), "v.ogg".to_string()),
    ];
    let script = script_from_ast(&ast).unwrap();
    assert_eq!(
        script,
        vec![
            Instruction::Scene { position: 1, image: Some("bg".to_string()), layer: "master".to_string() },
            Instruction::Say { position: 2, who: Some("eve".to_string()), what: "hi".to_string() },
            Instruction::Play { position: 3, mode: AudioMode::Voice, filename: "v.ogg".to_string() },
        ]
    );
}

#[test]
fn conversion_rejects_malformed_statements() {
    let nested = vec![AST::Label(1, "l".to_string(), vec![AST::Error], None)];
    assert_eq!(script_from_ast(&nested), Err(NovelError::MalformedInstruction));
    let bad_mode = AST::Play(1, "tape".to_string(), "x.ogg".to_string());
    assert_eq!(instruction_from_ast(&bad_mode), Err(NovelError::MalformedInstruction));
}

#[test]
fn load_script_decodes_ascii_escapes() {
    let script = load_script("\"\\u0041B\"\n").unwrap();
    assert_eq!(script, vec![Instruction::Say { position: 1, who: None, what: "AB".to_string() }]);
}

#[test]
fn load_script_refuses_escape_above_ascii() {
    assert_eq!(load_script("\"\\u0080\"\n"), Err(NovelError::ParseFailure));
    assert_eq!(load_script("\"\\u1234\"\n"), Err(NovelError::ParseFailure));
}

#[test]
fn load_script_reads_fadeout_with_ascii_digits() {
    let script = load_script("stop music fadeout 1.5\n").unwrap();
    assert_eq!(
        script,
        vec![Instruction::Stop {
            position: 1,
            channel: "music".to_string(),
            effect: Some("fadeout".to_string()),
        }]
    );
}

#[test]
fn load_script_refuses_fadeout_with_other_digits() {
    assert_eq!(load_script("stop music fadeout \u{0663}.\u{0665}\n"), Err(NovelError::ParseFailure));
}

#[test]
fn load_script_reads_non_ascii_after_fadeout_word() {
    let script = load_script("# fadeout \u{e9}\n\"fadeout \u{2026} caf\u{e9}\"\n").unwrap();
    assert_eq!(
        script,
        vec![
            Instruction::Comment { position: 1, text: "fadeout \u{e9}".to_string() },
            Instruction::Say { position: 2, who: None, what: "fadeout \u{2026} caf\u{e9}".to_string() },
        ]
    );
}

#[test]
fn load_script_reads_wide_escape_outside_strings() {
    let script = load_script("# see \\u00e9\n").unwrap();
    assert_eq!(script.len(), 1);
    assert!(matches!(&script[0], Instruction::Comment { position: 1, .. }));
}
