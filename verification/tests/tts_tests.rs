use cyber_ninja_monitor::ai_personality::{AIPersonality, Draws};
use cyber_ninja_monitor::message_system::{CacheKey, MessagePart, PersonalitySettings};
use cyber_ninja_monitor::tts::{
    interpret_response, synthesis_outcome, PipelineError, ProviderReply, SpeakAction, SpeakTurn,
    SynthesisError, TTSManager,
};

fn silent_settings() -> PersonalitySettings {
    PersonalitySettings {
        voice_type: "alloy".to_string(),
        volume: 100,
        speech_rate: 100,
        drunk_level: 0,
        sass_level: 0,
        tech_expertise: 0,
        grand_pappi_refs: 0,
        enthusiasm: 0,
        anxiety_level: 0,
        catchphrases: vec![],
        audio_enabled: true,
        is_1337_mode: false,
    }
}

fn audio_for(text: &str) -> Vec<u8> {
    let mut bytes = vec![0xff, 0xfb];
    bytes.extend_from_slice(text.as_bytes());
    bytes
}

/// Drives a request to its end against a synthesizer that fails exactly on
/// the texts in `failing`, and returns the last turn with the texts that
/// were sent for synthesis.
fn drive(tts: &mut TTSManager, parts: Vec<MessagePart>, failing: &[&str]) -> (SpeakTurn, Vec<String>) {
    let settings = silent_settings();
    let mut requested = Vec::new();
    let mut turn = tts.speak(parts, &settings);
    loop {
        let text = match &turn.action {
            SpeakAction::Synthesize { text, .. } => text.clone(),
            _ => return (turn, requested),
        };
        requested.push(text.clone());
        let outcome = if failing.contains(&text.as_str()) {
            Err(SynthesisError::TransportFailure)
        } else {
            Ok(audio_for(&text))
        };
        turn = tts.resume(turn.session, outcome);
    }
}

fn played(turn: &SpeakTurn) -> Vec<Vec<u8>> {
    match &turn.action {
        SpeakAction::Play { clips } => clips.clone(),
        other => panic!("expected the clips to play, got {:?}", other),
    }
}

#[test]
fn test_tts_caching() {
    if let Some(tts) = TTSManager::new(true) {
        let personality = silent_settings();
        let test_text = "Testing".to_string();
        let messages = vec![
            MessagePart::Static(test_text.clone()),
            MessagePart::Dynamic("audio system".to_string()),
        ];
        let key = tts.get_cache_key(&messages[0], &personality);
        match &messages[0] {
            MessagePart::Static(_text) => {
                assert!(matches!(key, CacheKey::Static(t, _) if t == test_text));
            }
            _ => panic!("Expected Static message part"),
        }
    } else {
        panic!("a manager with a credential must exist");
    }
}

#[test]
fn tts_test_audio_archiving() {
    let mut tts = TTSManager::new(true).unwrap();
    let personality = silent_settings();
    let test_message = vec![MessagePart::Static("Test message for archiving".to_string())];

    // Create mock audio data
    let mock_audio_data = vec![0x1, 0x2, 0x3, 0x4, 0x5];
    let cache_key = tts.get_cache_key(&test_message[0], &personality);
    tts.store(cache_key.clone(), mock_audio_data.clone());

    // Archive the cache
    let batch = tts.archive_and_clear_cache();

    assert_eq!(batch.clips.len(), 1, "Should have found at least one archived audio file");
    assert!(batch.clips[0].file_name.ends_with(".mp3"));
    assert_eq!(batch.clips[0].audio, mock_audio_data, "Archived audio data should match original");
    assert_eq!(batch.manifest.len(), 1, "Should have found the archive JSON file");
    assert_eq!(format!("{}.mp3", batch.manifest[0]), batch.clips[0].file_name);
    assert_eq!(
        batch.manifest[0],
        "ddfbafa04f5b7fa5bb7738fdc8cfc4ae6293f33197297c2767b71078918a05b7"
    );
    assert!(tts.lookup(&cache_key).is_none());
    assert!(tts.archive_and_clear_cache().clips.is_empty());
}

#[test]
fn no_manager_without_credential() {
    assert!(TTSManager::new(false).is_none());
    let tts = TTSManager::new(true).unwrap();
    assert_eq!(tts.voice_type(), "alloy");
    assert_eq!(tts.volume(), 10_000);
    assert_eq!(tts.speech_rate(), 10_000);
    assert!(tts.audio_enabled());
    assert!(tts.is_available());
}

#[test]
fn setters_clamp() {
    let mut tts = TTSManager::new(true).unwrap();
    tts.set_volume(15_000);
    assert_eq!(tts.volume(), 10_000);
    tts.set_volume(-1);
    assert_eq!(tts.volume(), 0);
    tts.set_volume(4_321);
    assert_eq!(tts.volume(), 4_321);
    tts.set_speech_rate(4_999);
    assert_eq!(tts.speech_rate(), 5_000);
    tts.set_speech_rate(20_001);
    assert_eq!(tts.speech_rate(), 20_000);
    tts.set_speech_rate(12_500);
    assert_eq!(tts.speech_rate(), 12_500);
    tts.set_voice_type("nova".to_string());
    assert_eq!(tts.voice_type(), "nova");
    tts.set_audio_enabled(false);
    assert!(!tts.audio_enabled());
}

#[test]
fn store_then_lookup() {
    let mut tts = TTSManager::new(true).unwrap();
    let a = CacheKey::Dynamic("90".to_string());
    let b = CacheKey::Dynamic("95".to_string());
    assert!(tts.lookup(&a).is_none());
    tts.store(a.clone(), vec![1, 2, 3]);
    assert_eq!(tts.lookup(&a), Some(vec![1, 2, 3]));
    assert!(tts.lookup(&b).is_none());
    tts.store(b.clone(), vec![9]);
    tts.store(a.clone(), vec![4]);
    assert_eq!(tts.lookup(&a), Some(vec![4]));
    assert_eq!(tts.lookup(&b), Some(vec![9]));
    tts.clear_cache();
    assert!(tts.lookup(&a).is_none());
    assert!(tts.lookup(&b).is_none());
}

#[test]
fn first_request_synthesizes_in_order_and_second_is_served_from_cache() {
    let mut tts = TTSManager::new(true).unwrap();
    tts.set_voice_type("echo".to_string());
    tts.set_speech_rate(12_000);
    let parts = vec![
        MessagePart::Static("one".to_string()),
        MessagePart::Static("   ".to_string()),
        MessagePart::Full("two".to_string()),
        MessagePart::Dynamic("three".to_string()),
    ];

    let first = tts.speak(parts.clone(), &silent_settings());
    match &first.action {
        SpeakAction::Synthesize { text, voice, rate } => {
            assert_eq!(text, "one");
            assert_eq!(voice, "echo");
            assert_eq!(*rate, 12_000);
        }
        other => panic!("expected a synthesis request, got {:?}", other),
    }
    assert!(first.session.is_awaiting());
    assert_eq!(first.session.position(), 0);

    let (end, requested) = drive(&mut tts, parts.clone(), &[]);
    assert_eq!(requested, vec!["one", "two", "three"]);
    assert_eq!(played(&end), vec![audio_for("one"), audio_for("two"), audio_for("three")]);
    assert!(end.session.failures().is_empty());
    assert_eq!(end.session.position(), 4);
    assert!(!end.session.is_awaiting());

    // identical inputs: no synthesis, same clips
    let again = tts.speak(parts.clone(), &silent_settings());
    assert_eq!(played(&again), vec![audio_for("one"), audio_for("two"), audio_for("three")]);
    let (end, requested) = drive(&mut tts, parts, &[]);
    assert!(requested.is_empty());
    assert_eq!(end.session.clips().len(), 3);
}

#[test]
fn a_failed_segment_is_left_out_and_the_others_are_cached_and_played() {
    let mut tts = TTSManager::new(true).unwrap();
    let parts = vec![
        MessagePart::Static("first".to_string()),
        MessagePart::Static("second".to_string()),
        MessagePart::Static("third".to_string()),
    ];
    let (end, requested) = drive(&mut tts, parts.clone(), &["second"]);
    assert_eq!(requested, vec!["first", "second", "third"]);
    assert_eq!(played(&end), vec![audio_for("first"), audio_for("third")]);
    let failures = end.session.failures();
    assert_eq!(failures.len(), 1);
    assert_eq!(failures[0].index, 1);
    assert!(matches!(failures[0].error, SynthesisError::TransportFailure));

    let settings = silent_settings();
    assert_eq!(tts.lookup(&CacheKey::derive(&parts[0], &settings)), Some(audio_for("first")));
    assert_eq!(tts.lookup(&CacheKey::derive(&parts[1], &settings)), None);
    assert_eq!(tts.lookup(&CacheKey::derive(&parts[2], &settings)), Some(audio_for("third")));

    // only the failed segment is asked for again
    let (end, requested) = drive(&mut tts, parts, &[]);
    assert_eq!(requested, vec!["second"]);
    assert_eq!(
        played(&end),
        vec![audio_for("first"), audio_for("second"), audio_for("third")]
    );
}

#[test]
fn a_key_met_twice_in_one_message_is_synthesized_once() {
    let mut tts = TTSManager::new(true).unwrap();
    let parts = vec![
        MessagePart::Dynamic("CPU usage is at 92.3%".to_string()),
        MessagePart::Dynamic("CPU usage is at 91.0%".to_string()),
        MessagePart::Dynamic("CPU usage is at 93.8%".to_string()),
    ];
    let (end, requested) = drive(&mut tts, parts, &[]);
    assert_eq!(requested, vec!["CPU usage is at 92.3%", "CPU usage is at 93.8%"]);
    assert_eq!(
        played(&end),
        vec![
            audio_for("CPU usage is at 92.3%"),
            audio_for("CPU usage is at 92.3%"),
            audio_for("CPU usage is at 93.8%"),
        ]
    );
}

#[test]
fn muted_requests_still_fill_the_cache() {
    let mut tts = TTSManager::new(true).unwrap();
    tts.set_audio_enabled(false);
    let parts = vec![MessagePart::Static("quiet".to_string())];
    let (end, requested) = drive(&mut tts, parts.clone(), &[]);
    assert_eq!(requested, vec!["quiet"]);
    assert!(matches!(end.action, SpeakAction::Finished));
    assert_eq!(end.session.clips(), &vec![audio_for("quiet")]);

    tts.set_audio_enabled(true);
    let again = tts.speak(parts, &silent_settings());
    assert_eq!(played(&again), vec![audio_for("quiet")]);
}

#[test]
fn an_empty_or_blank_message_plays_nothing() {
    let mut tts = TTSManager::new(true).unwrap();
    let (end, requested) = drive(&mut tts, vec![], &[]);
    assert!(requested.is_empty());
    assert!(played(&end).is_empty());
    let (end, requested) = drive(&mut tts, vec![MessagePart::Static(" \n".to_string())], &[]);
    assert!(requested.is_empty());
    assert!(played(&end).is_empty());
    assert_eq!(end.session.position(), 1);
}

#[test]
fn an_outcome_nobody_asked_for_is_ignored() {
    let mut tts = TTSManager::new(true).unwrap();
    let parts = vec![MessagePart::Static("done".to_string())];
    let (end, _) = drive(&mut tts, parts, &[]);
    let key = CacheKey::Dynamic("stray".to_string());
    let after = tts.resume(end.session, Ok(vec![7, 7, 7]));
    assert_eq!(played(&after), vec![audio_for("done")]);
    assert!(tts.lookup(&key).is_none());
    assert!(after.session.failures().is_empty());
}

#[test]
fn a_lost_device_makes_the_manager_unavailable() {
    let mut tts = TTSManager::new(true).unwrap();
    assert_eq!(tts.report_device(true), Ok(()));
    assert!(tts.is_available());
    assert_eq!(tts.report_device(false), Err(PipelineError::PlaybackDevice));
    assert!(!tts.is_available());
    assert_eq!(tts.report_device(true), Err(PipelineError::PlaybackDevice));
    let turn = tts.speak(vec![MessagePart::Static("hello".to_string())], &silent_settings());
    assert!(matches!(turn.action, SpeakAction::Unavailable));
    assert_eq!(turn.session.position(), 0);
}

#[test]
fn provider_answers() {
    assert!(matches!(interpret_response(200, vec![1, 2], String::new()), Ok(b) if b == vec![1, 2]));
    assert!(matches!(interpret_response(299, vec![], String::new()), Ok(b) if b.is_empty()));
    assert!(matches!(
        interpret_response(199, vec![1], "early".to_string()),
        Err(SynthesisError::ProviderRejected(t)) if t == "early"
    ));
    assert!(matches!(
        interpret_response(300, vec![1], "moved".to_string()),
        Err(SynthesisError::ProviderRejected(t)) if t == "moved"
    ));
    assert!(matches!(
        interpret_response(401, vec![], "bad key".to_string()),
        Err(SynthesisError::ProviderRejected(t)) if t == "bad key"
    ));
}

#[test]
fn errors_describe_themselves() {
    assert_eq!(SynthesisError::MissingCredential.to_string(), "no provider credential configured");
    assert_eq!(SynthesisError::TransportFailure.to_string(), "transport failure");
    assert_eq!(
        SynthesisError::ProviderRejected("quota".to_string()).to_string(),
        "provider rejected the request: quota"
    );
    assert_eq!(SynthesisError::DecodeFailure.to_string(), "response is not audio");
}

#[test]
fn tts_test_tts_integration() {
    if let Some(mut tts) = TTSManager::new(true) {
        // Test with a simple static message
        let messages = vec![MessagePart::Static("Test message".to_string())];
        let (end, requested) = drive(&mut tts, messages, &[]);
        assert_eq!(requested, vec!["Test message"]);
        assert_eq!(played(&end), vec![audio_for("Test message")]);

        // Test with a more complex message combining static and dynamic parts
        let messages = vec![
            MessagePart::Static("Testing".to_string()),
            MessagePart::Dynamic("dynamic content".to_string()),
        ];
        let (end, requested) = drive(&mut tts, messages, &[]);
        assert_eq!(requested, vec!["Testing", "dynamic content"]);
        assert_eq!(played(&end), vec![audio_for("Testing"), audio_for("dynamic content")]);
    } else {
        panic!("a manager with a credential must exist");
    }
}

#[test]
fn test_personality_tts_integration() {
    let mut tts = TTSManager::new(true).unwrap();
    let message = vec![MessagePart::Static("Testing system integration".to_string())];
    let (end, requested) = drive(&mut tts, message, &[]);
    assert_eq!(requested, vec!["Testing system integration"]);
    assert_eq!(played(&end), vec![audio_for("Testing system integration")]);
}

#[test]
fn integration_test_test_tts_integration() {
    let mut tts = TTSManager::new(true).unwrap();
    let message = vec![MessagePart::Static("Test message".to_string())];
    let (end, requested) = drive(&mut tts, message, &[]);
    assert_eq!(requested, vec!["Test message"]);
    assert!(end.session.failures().is_empty());
}

#[test]
fn test_system_integration() {
    let mut tts = TTSManager::new(true).unwrap();
    let personality = PersonalitySettings {
        voice_type: "default".to_string(),
        volume: 100,
        speech_rate: 100,
        drunk_level: 0,
        sass_level: 0,
        tech_expertise: 0,
        grand_pappi_refs: 0,
        enthusiasm: 0,
        anxiety_level: 0,
        catchphrases: vec![],
        audio_enabled: true,
        is_1337_mode: false,
    };
    let message = vec![MessagePart::Static("Testing system integration".to_string())];
    // the provider is down: the request still comes to its end
    let mut turn = tts.speak(message, &personality);
    while let SpeakAction::Synthesize { .. } = &turn.action {
        turn = tts.resume(turn.session, Err(SynthesisError::TransportFailure));
    }
    assert!(played(&turn).is_empty());
    assert_eq!(turn.session.failures().len(), 1);
}

#[test]
fn every_kind_of_synthesis_failure() {
    let answer = |status: u16| ProviderReply::Answer {
        status,
        body: vec![0xff, 0xfb, 0x90],
        diagnostic: "quota exceeded".to_string(),
    };
    assert!(matches!(
        synthesis_outcome(ProviderReply::NotAttempted, true),
        Err(SynthesisError::MissingCredential)
    ));
    assert!(matches!(
        synthesis_outcome(ProviderReply::Unreachable, true),
        Err(SynthesisError::TransportFailure)
    ));
    assert!(matches!(
        synthesis_outcome(answer(429), true),
        Err(SynthesisError::ProviderRejected(t)) if t == "quota exceeded"
    ));
    // a rejection stays a rejection, whatever the decoder says of its body
    assert!(matches!(
        synthesis_outcome(answer(500), false),
        Err(SynthesisError::ProviderRejected(t)) if t == "quota exceeded"
    ));
    assert!(matches!(synthesis_outcome(answer(200), false), Err(SynthesisError::DecodeFailure)));
    assert!(matches!(synthesis_outcome(answer(200), true), Ok(b) if b == vec![0xff, 0xfb, 0x90]));
    assert!(matches!(synthesis_outcome(answer(299), true), Ok(_)));
    assert!(matches!(synthesis_outcome(answer(300), true), Err(_)));
}

#[test]
fn no_credential_is_a_configuration_error() {
    assert!(matches!(TTSManager::try_new(false), Err(PipelineError::Configuration)));
    let tts = TTSManager::try_new(true);
    assert!(matches!(&tts, Ok(m) if m.is_available() && m.voice_type() == "alloy"));
}

#[test]
fn speaking_a_raw_text_composes_it_first() {
    let mut tts = TTSManager::new(true).unwrap();
    let mut p = AIPersonality::default();
    p.enthusiasm = 9_000;
    let d = Draws { sass_draw: 9_999, catchphrase_pick: 0, quote_draw: 9_999, quote_pick: 0 };

    let turn = tts.speak_text_with("  System is   running normally. ", &p, &d);
    match &turn.action {
        SpeakAction::Synthesize { text, voice, rate } => {
            assert_eq!(text, "System is running normally!!!");
            assert_eq!(voice, "alloy");
            assert_eq!(*rate, 10_000);
        }
        other => panic!("expected a synthesis request, got {:?}", other),
    }
    let end = tts.resume(turn.session, Ok(vec![1, 2, 3]));
    assert_eq!(played(&end), vec![vec![1, 2, 3]]);

    // the same text again is served from the cache, whatever the spacing
    let again = tts.speak_text("System is running normally.", &p);
    assert_eq!(played(&again), vec![vec![1, 2, 3]]);
    // a personality that differs in the fourth decimal place shares the clip
    p.enthusiasm = 9_004;
    assert_eq!(played(&tts.speak_text("System is running normally.", &p)), vec![vec![1, 2, 3]]);
    // a personality that differs in the second does not
    p.enthusiasm = 9_100;
    assert!(matches!(
        tts.speak_text("System is running normally.", &p).action,
        SpeakAction::Synthesize { .. }
    ));
    // a blank text asks for nothing
    assert!(played(&tts.speak_text(" \t ", &p)).is_empty());
}

#[test]
fn test_tts_message_handling() {
    if let Ok(mut tts) = TTSManager::try_new(true) {
        let message = MessagePart::Static("Test message".to_string());
        let (end, _) = drive(&mut tts, vec![message], &[]);
        assert_eq!(played(&end), vec![audio_for("Test message")]);
    } else {
        panic!("a manager with a credential must exist");
    }
}

#[test]
fn test_tts_multiple_messages() {
    if let Ok(mut tts) = TTSManager::try_new(true) {
        let messages = vec![
            MessagePart::Static("First message".to_string()),
            MessagePart::Static("Second message".to_string()),
        ];
        for message in messages {
            let expected = audio_for(message.text());
            let (end, _) = drive(&mut tts, vec![message], &[]);
            assert_eq!(played(&end), vec![expected]);
        }
    } else {
        panic!("a manager with a credential must exist");
    }
}
