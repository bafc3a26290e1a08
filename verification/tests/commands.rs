use jarvis_core::commands::{
    get_command, resolve_localized, should_retrain, training_examples, JCommand, JCommandsList,
};

fn table(entries: &[(&str, &[&str])]) -> Vec<(String, Vec<String>)> {
    entries
        .iter()
        .map(|(k, vs)| (k.to_string(), vs.iter().map(|v| v.to_string()).collect()))
        .collect()
}

fn command(id: &str, phrases: &[(&str, &[&str])]) -> JCommand {
    JCommand {
        id: id.to_string(),
        action: "lua".to_string(),
        description: String::new(),
        exe_path: String::new(),
        exe_args: vec![],
        cli_cmd: String::new(),
        cli_args: vec![],
        sounds: table(&[("ru", &["ok.wav"]), ("en", &["ok_en.wav"])]),
        phrases: table(phrases),
    }
}

#[test]
fn resolve_prefers_language_then_english_then_first() {
    let t = table(&[("ru", &["привет"]), ("en", &["hello", "hi"])]);
    assert_eq!(resolve_localized(&t, "ru"), vec!["привет".to_string()]);
    assert_eq!(resolve_localized(&t, "en"), vec!["hello".to_string(), "hi".to_string()]);
    assert_eq!(resolve_localized(&t, "ua"), vec!["hello".to_string(), "hi".to_string()]);
    let t = table(&[("ru", &["привет"]), ("de", &["hallo"])]);
    assert_eq!(resolve_localized(&t, "ua"), vec!["привет".to_string()]);
    assert_eq!(resolve_localized(&t, "en"), vec!["привет".to_string()]);
    assert!(resolve_localized(&vec![], "en").is_empty());
}

#[test]
fn phrases_and_sounds_per_language() {
    let c = command("time", &[("ru", &["который час"]), ("en", &["what time"])]);
    assert_eq!(c.get_phrases("en"), vec!["what time".to_string()]);
    assert_eq!(c.get_sounds("ru"), vec!["ok.wav".to_string()]);
    assert_eq!(c.get_sounds("ua"), vec!["ok_en.wav".to_string()]);
    assert_eq!(c.get_all_phrases(), vec!["который час".to_string(), "what time".to_string()]);
    assert_eq!(c.get_all_sounds(), vec!["ok.wav".to_string(), "ok_en.wav".to_string()]);
}

#[test]
fn get_command_finds_first_with_id() {
    let lists = vec![
        JCommandsList { path: "a".to_string(), commands: vec![command("x", &[]), command("y", &[])] },
        JCommandsList { path: "b".to_string(), commands: vec![command("y", &[]), command("z", &[])] },
    ];
    let (p, c) = get_command(&lists, "y").unwrap();
    assert_eq!(p, "a");
    assert_eq!(c.id, "y");
    let (p, c) = get_command(&lists, "z").unwrap();
    assert_eq!(p, "b");
    assert_eq!(c.id, "z");
    assert!(get_command(&lists, "w").is_none());
    assert!(get_command(&[], "x").is_none());
}

#[test]
fn training_examples_pair_phrases_with_ids() {
    let lists = vec![
        JCommandsList {
            path: "a".to_string(),
            commands: vec![
                command("time", &[("ru", &["который час", "сколько времени"]), ("en", &["time"])]),
                command("quiet", &[("en", &["be quiet"])]),
            ],
        },
        JCommandsList { path: "b".to_string(), commands: vec![command("none", &[])] },
    ];
    let ex = training_examples(&lists, "ru");
    assert_eq!(
        ex,
        vec![
            ("который час".to_string(), "time".to_string()),
            ("сколько времени".to_string(), "time".to_string()),
            ("be quiet".to_string(), "quiet".to_string()),
        ]
    );
}

#[test]
fn retrain_unless_cache_matches() {
    assert!(should_retrain(false, "abc", "abc"));
    assert!(!should_retrain(true, "abc\n", "abc"));
    assert!(should_retrain(true, "abd", "abc"));
    assert!(should_retrain(true, "", "abc"));
}

#[test]
fn duplicate_copies_every_field() {
    let c = command("time", &[("ru", &["который час"])]);
    let d = c.duplicate();
    assert_eq!(d.id, "time");
    assert_eq!(d.action, "lua");
    assert_eq!(d.phrases, c.phrases);
    assert_eq!(d.sounds, c.sounds);
    assert_eq!(d.exe_args, c.exe_args);
}
