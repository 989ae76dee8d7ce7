use bevy_novel::{
    find_element_with_index, handle_press_key, holds_no_error, list_ast_indices, Advance, AudioMode, Effect,
    ImageSource, Instruction, NovelData, NovelError, NovelSettings, Phase, Traversal,
};

fn say(position: usize, who: Option<&str>, what: &str) -> Instruction {
    Instruction::Say {
        position,
        who: who.map(|w| w.to_string()),
        what: what.to_string(),
    }
}

fn show(position: usize, image: &str) -> Instruction {
    Instruction::Show { position, image: image.to_string() }
}

fn scene(position: usize, image: &str) -> Instruction {
    Instruction::Scene {
        position,
        image: Some(image.to_string()),
        layer: "master".to_string(),
    }
}

fn play(position: usize, mode: AudioMode, filename: &str) -> Instruction {
    Instruction::Play { position, mode, filename: filename.to_string() }
}

fn label(position: usize, name: &str, body: Vec<Instruction>) -> Instruction {
    Instruction::Label { position, name: name.to_string(), body, options: None }
}

fn comment(position: usize, text: &str) -> Instruction {
    Instruction::Comment { position, text: text.to_string() }
}

#[test]
fn empty_script_ends_on_first_advance() {
    let mut data: NovelData<u32> = NovelData::new();
    let records = data.handle_start_scenario(Vec::new()).unwrap();
    assert!(records.is_empty());
    assert_eq!(data.phase, Phase::Ended);
    assert_eq!(data.current_index, 0);
}

#[test]
fn auto_advance_chain_stops_at_say() {
    let mut data: NovelData<u32> = NovelData::new();
    let script = vec![
        scene(1, "bg"),
        show(2, "hero"),
        play(3, AudioMode::Music, "theme.ogg"),
        say(4, Some("hero"), "Hello"),
    ];
    let records = data.handle_start_scenario(script).unwrap();
    assert_eq!(records.len(), 4);
    assert_eq!(records[0].node, scene(1, "bg"));
    assert_eq!(records[1].node, show(2, "hero"));
    assert_eq!(records[2].node, play(3, AudioMode::Music, "theme.ogg"));
    assert_eq!(records[3].node, say(4, Some("hero"), "Hello"));
    for r in &records[..3] {
        assert_eq!(r.advance, Advance::Auto);
    }
    assert_eq!(records[3].advance, Advance::AwaitInput);
    assert_eq!(data.phase, Phase::AwaitingInput);
    assert_eq!(data.current_index, 4);
    assert_eq!(
        records[3].effects,
        vec![Effect::ShowText { who: "hero".to_string(), what: "Hello".to_string() }]
    );
    let rest = data.advance();
    assert!(rest.is_empty());
    assert_eq!(data.phase, Phase::Ended);
}

#[test]
fn label_body_lookup_finds_nested_say() {
    let script = vec![label(1, "a", vec![say(5, None, "inside")])];
    assert_eq!(find_element_with_index(&script, 5), None);
    let mut data: NovelData<u32> = NovelData::new();
    data.ast = script;
    data.current_index = 4;
    assert_eq!(data.next_node(), Traversal::Found(say(5, None, "inside")));
    assert_eq!(data.current_index, 5);
}

#[test]
fn label_then_body_in_one_cascade() {
    let mut data: NovelData<u32> = NovelData::new();
    let records = data.handle_start_scenario(vec![label(1, "a", vec![say(5, None, "inside")])]).unwrap();
    // Positions 2 to 4 hold nothing and are passed over.
    assert_eq!(records.len(), 2);
    assert_eq!(records[0].node.position(), Some(1));
    assert_eq!(records[1].node, say(5, None, "inside"));
    assert_eq!(data.phase, Phase::AwaitingInput);
    assert_eq!(data.current_index, 5);
}

#[test]
fn injection_at_used_position_is_rejected() {
    let mut data: NovelData<u32> = NovelData::new();
    data.ast = vec![say(1, None, "one"), label(2, "l", vec![say(3, None, "three")])];
    let before = data.ast.clone();
    assert_eq!(data.push_show_node("hero".to_string(), 1), Err(NovelError::PositionCollision));
    assert_eq!(data.ast, before);
    assert_eq!(data.push_text_node(None, "x".to_string(), 3), Err(NovelError::PositionCollision));
    assert_eq!(data.ast, before);
    assert_eq!(data.inject_instruction(Instruction::Error), Err(NovelError::MalformedInstruction));
    assert_eq!(data.ast, before);
}

#[test]
fn injection_goes_in_position_order_and_into_bracketing_label() {
    let mut data: NovelData<u32> = NovelData::new();
    data.ast = vec![
        say(1, None, "one"),
        label(2, "l", vec![say(3, None, "three"), say(6, None, "six")]),
        say(8, None, "eight"),
    ];
    assert_eq!(data.push_hide_node("hero".to_string(), 4), Ok(()));
    let hide = Instruction::Hide { position: 4, image: "hero".to_string() };
    assert_eq!(
        data.ast,
        vec![
            say(1, None, "one"),
            label(2, "l", vec![say(3, None, "three"), hide.clone(), say(6, None, "six")]),
            hide.clone(),
            say(8, None, "eight"),
        ]
    );
    // Outside the label's bracket only the top level changes.
    assert_eq!(data.push_scene_node("bg".to_string(), 7), Ok(()));
    assert_eq!(data.ast[4], say(8, None, "eight"));
    assert_eq!(data.ast[3], scene(7, "bg"));
    assert_eq!(data.ast.len(), 5);
}

#[test]
fn cache_hit_avoids_resolution() {
    let mut data: NovelData<u32> = NovelData::new();
    let first = data.handle_new_node(&show(1, "hero")).unwrap();
    assert_eq!(
        first.effects,
        vec![Effect::SetCharacter { image: ImageSource::Asset { file_name: "hero.png".to_string() } }]
    );
    data.write_image_cache("hero".to_string(), 7);
    let second = data.handle_new_node(&show(2, "hero")).unwrap();
    assert_eq!(
        second.effects,
        vec![Effect::SetCharacter { image: ImageSource::Cached { name: "hero".to_string() } }]
    );
    let background = data.handle_new_node(&scene(3, "hero")).unwrap();
    assert_eq!(
        background.effects,
        vec![
            Effect::SetBackground { image: ImageSource::Cached { name: "hero".to_string() } },
            Effect::HideCharacter,
        ]
    );
    assert_eq!(data.cached_image(&"hero".to_string()), Some(&7));
}

#[test]
fn write_image_cache_replaces_entry() {
    let mut data: NovelData<u32> = NovelData::new();
    data.write_image_cache("a".to_string(), 1);
    data.write_image_cache("b".to_string(), 2);
    data.write_image_cache("a".to_string(), 3);
    assert_eq!(data.cached_images.len(), 2);
    assert_eq!(data.cached_image(&"a".to_string()), Some(&3));
    assert_eq!(data.cached_image(&"b".to_string()), Some(&2));
    assert_eq!(data.cached_image(&"c".to_string()), None);
    assert!(data.is_cached(&"b".to_string()));
    assert!(!data.is_cached(&"c".to_string()));
}

#[test]
fn say_gates_until_external_advance() {
    let mut data: NovelData<u32> = NovelData::new();
    let records = data.handle_start_scenario(vec![
        say(1, None, "first"),
        comment(2, "note"),
        say(3, Some("me"), "second"),
    ])
    .unwrap();
    assert_eq!(records.len(), 1);
    assert_eq!(data.phase, Phase::AwaitingInput);
    assert_eq!(data.current_index, 1);
    assert_eq!(
        records[0].effects,
        vec![Effect::ShowText { who: String::new(), what: "first".to_string() }]
    );
    let next = data.advance();
    assert_eq!(next.len(), 2);
    assert!(next[0].effects.is_empty());
    assert_eq!(next[1].node, say(3, Some("me"), "second"));
    assert_eq!(data.phase, Phase::AwaitingInput);
    assert_eq!(data.advance().len(), 0);
    assert_eq!(data.phase, Phase::Ended);
    assert_eq!(data.advance().len(), 0);
    assert_eq!(data.phase, Phase::Ended);
}

#[test]
fn advancing_reaches_end_within_max_steps() {
    let mut data: NovelData<u32> = NovelData::new();
    data.ast = vec![comment(2, "a"), label(3, "l", vec![say(5, None, "b")]), comment(9, "c")];
    let mut steps = 0;
    loop {
        match data.next_node() {
            Traversal::Ended => break,
            _ => steps += 1,
        }
        assert!(steps <= 9);
    }
    assert_eq!(steps, 9);
    assert_eq!(data.current_index, 9);
}

#[test]
fn gap_positions_yield_nothing() {
    let mut data: NovelData<u32> = NovelData::new();
    data.ast = vec![comment(2, "a")];
    assert_eq!(data.next_node(), Traversal::Gap);
    assert_eq!(data.current_index, 1);
    assert_eq!(data.next_node(), Traversal::Found(comment(2, "a")));
    assert_eq!(data.next_node(), Traversal::Ended);
    assert_eq!(data.current_index, 2);
}

#[test]
fn switch_next_node_skips_gaps() {
    let mut data: NovelData<u32> = NovelData::new();
    data.ast = vec![comment(3, "a")];
    assert_eq!(data.handle_switch_next_node(), Some(comment(3, "a")));
    assert_eq!(data.current_index, 3);
    assert_eq!(data.handle_switch_next_node(), None);
}

#[test]
fn indices_cover_nested_bodies_in_order() {
    let script = vec![
        say(1, None, "a"),
        label(2, "outer", vec![say(3, None, "b"), label(4, "inner", vec![say(5, None, "c")])]),
        say(6, None, "d"),
    ];
    assert_eq!(list_ast_indices(&script), vec![1, 2, 6, 3, 4, 5]);
    assert_eq!(list_ast_indices(&Vec::new()), Vec::<usize>::new());
}

#[test]
fn lookup_is_one_level_deep() {
    let script = vec![label(1, "outer", vec![label(2, "inner", vec![say(3, None, "deep")])])];
    let mut data: NovelData<u32> = NovelData::new();
    data.ast = script;
    assert!(matches!(data.next_node(), Traversal::Found(Instruction::Label { position: 1, .. })));
    assert!(matches!(data.next_node(), Traversal::Found(Instruction::Label { position: 2, .. })));
    // Position 3 lies two labels down: the traversal does not reach it.
    assert_eq!(data.next_node(), Traversal::Gap);
    assert_eq!(data.next_node(), Traversal::Ended);
}

#[test]
fn find_element_checks_top_level_only() {
    let script = vec![say(1, None, "a"), label(2, "l", vec![say(3, None, "b")])];
    assert_eq!(find_element_with_index(&script, 1), Some(say(1, None, "a")));
    assert_eq!(find_element_with_index(&script, 3), None);
    assert_eq!(find_element_with_index(&script, 9), None);
}

#[test]
fn dispatch_of_each_variant() {
    let data: NovelData<u32> = NovelData::new();
    let r = data.handle_new_node(&Instruction::Error);
    assert_eq!(r.err(), Some(NovelError::MalformedInstruction));
    let hide = data.handle_new_node(&Instruction::Hide { position: 1, image: "x".to_string() }).unwrap();
    assert_eq!(hide.effects, vec![Effect::HideCharacter]);
    assert_eq!(hide.advance, Advance::Auto);
    let empty_scene = data
        .handle_new_node(&Instruction::Scene { position: 1, image: None, layer: "master".to_string() })
        .unwrap();
    assert_eq!(empty_scene.effects, vec![Effect::HideCharacter]);
    let audio = data.handle_new_node(&play(2, AudioMode::Sound, "click.ogg")).unwrap();
    assert_eq!(
        audio.effects,
        vec![Effect::PlayAudio { mode: AudioMode::Sound, filename: "click.ogg".to_string() }]
    );
    let jump = data
        .handle_new_node(&Instruction::Jump { position: 3, label: "end".to_string(), expression: false })
        .unwrap();
    assert!(jump.effects.is_empty());
    assert_eq!(jump.advance, Advance::Auto);
    let ret = data.handle_new_node(&Instruction::Return { position: 4, value: None }).unwrap();
    assert_eq!(ret.advance, Advance::Auto);
}

#[test]
fn audio_mode_parsing() {
    assert_eq!(AudioMode::parse("music"), Ok(AudioMode::Music));
    assert_eq!(AudioMode::parse("\"sound\""), Ok(AudioMode::Sound));
    assert_eq!(AudioMode::parse("voice"), Ok(AudioMode::Voice));
    assert_eq!(AudioMode::parse("movie"), Err(()));
    assert_eq!(AudioMode::parse(""), Err(()));
    assert_eq!("\"music\"".parse::<AudioMode>(), Ok(AudioMode::Music));
}

#[test]
fn press_key_respects_pause() {
    let mut settings = NovelSettings::default();
    assert!(handle_press_key(&settings, true));
    assert!(!handle_press_key(&settings, false));
    settings.pause_handle_switch_node = true;
    assert!(!handle_press_key(&settings, true));
}

#[test]
fn malformed_script_is_refused_before_playback() {
    let mut data: NovelData<u32> = NovelData::new();
    data.handle_start_scenario(vec![say(1, None, "kept")]).unwrap();
    let bad = vec![say(1, None, "a"), label(2, "l", vec![say(3, None, "b"), Instruction::Error])];
    assert!(!holds_no_error(&bad));
    assert_eq!(data.handle_start_scenario(bad).err(), Some(NovelError::MalformedInstruction));
    assert_eq!(data.ast, vec![say(1, None, "kept")]);
    assert_eq!(data.current_index, 1);
    assert_eq!(data.phase, Phase::AwaitingInput);
    assert!(holds_no_error(&data.ast));
}

#[test]
fn injecting_label_with_malformed_body_is_refused() {
    let mut data: NovelData<u32> = NovelData::new();
    data.ast = vec![say(1, None, "a")];
    let node = label(5, "l", vec![Instruction::Error]);
    assert_eq!(data.inject_instruction(node), Err(NovelError::MalformedInstruction));
    assert_eq!(data.ast, vec![say(1, None, "a")]);
    let good = label(5, "l", vec![say(6, None, "b")]);
    assert_eq!(data.inject_instruction(good), Ok(()));
    assert_eq!(list_ast_indices(&data.ast), vec![1, 5, 6]);
}

#[test]
fn audio_mode_from_str_is_case_sensitive() {
    assert_eq!("Music".parse::<AudioMode>(), Err(()));
    assert_eq!("mu\"s\"ic".parse::<AudioMode>(), Ok(AudioMode::Music));
}
