use cyber_ninja_monitor::ai_personality::{
    apply_anxiety, apply_drunk_effect, apply_enthusiasm, apply_grand_pappi, apply_sass,
    apply_tech_expertise, clamp_level, draw, is_known_voice, quantize_level, quotes,
    AIPersonality, Draws,
};
use cyber_ninja_monitor::message_system::{CacheKey, MessagePart};

fn no_luck() -> Draws {
    Draws { sass_draw: 9_999, catchphrase_pick: 0, quote_draw: 9_999, quote_pick: 0 }
}

#[test]
fn test_default_personality() {
    let personality = AIPersonality::default();
    assert_eq!(personality.voice_type, "alloy");
    assert_eq!(personality.drunk_level, 0);
    assert_eq!(personality.sass_level, 5_000);
    assert_eq!(personality.tech_expertise, 7_000);
    assert_eq!(personality.grand_pappi_references, 3_000);
    assert_eq!(personality.enthusiasm, 6_000);
    assert_eq!(personality.anxiety_level, 2_000);
    assert_eq!(personality.volume, 8_000);
    assert_eq!(personality.speech_rate, 10_000);
    assert!(personality.audio_enabled);
    assert!(!personality.catchphrases.is_empty());
}

#[test]
fn ai_personality_test_clamp_values() {
    let mut personality = AIPersonality::default();

    // Test values above maximum
    personality.drunk_level = 15_000;
    personality.sass_level = 15_000;
    personality.tech_expertise = 15_000;
    personality.grand_pappi_references = 15_000;
    personality.enthusiasm = 15_000;
    personality.anxiety_level = 15_000;
    personality.volume = 15_000;
    personality.speech_rate = 25_000;

    personality.clamp_values();

    assert_eq!(personality.drunk_level, 10_000);
    assert_eq!(personality.sass_level, 10_000);
    assert_eq!(personality.tech_expertise, 10_000);
    assert_eq!(personality.grand_pappi_references, 10_000);
    assert_eq!(personality.enthusiasm, 10_000);
    assert_eq!(personality.anxiety_level, 10_000);
    assert_eq!(personality.volume, 10_000);
    assert_eq!(personality.speech_rate, 20_000);

    // Test values below minimum
    personality.drunk_level = -5_000;
    personality.sass_level = -5_000;
    personality.tech_expertise = -5_000;
    personality.grand_pappi_references = -5_000;
    personality.enthusiasm = -5_000;
    personality.anxiety_level = -5_000;
    personality.volume = -5_000;
    personality.speech_rate = 3_000;

    personality.clamp_values();

    assert_eq!(personality.drunk_level, 0);
    assert_eq!(personality.sass_level, 0);
    assert_eq!(personality.tech_expertise, 0);
    assert_eq!(personality.grand_pappi_references, 0);
    assert_eq!(personality.enthusiasm, 0);
    assert_eq!(personality.anxiety_level, 0);
    assert_eq!(personality.volume, 0);
    assert_eq!(personality.speech_rate, 5_000);
}

#[test]
fn ai_personality_test_audio_controls() {
    let mut personality = AIPersonality::default();
    assert!(personality.audio_enabled);

    let message = personality.toggle_audio();
    assert!(!personality.audio_enabled);
    assert_eq!(
        message,
        "Going silent mode. Just like Grand Pappi during his meditation sessions."
    );

    let message = personality.toggle_audio();
    assert!(personality.audio_enabled);
    assert_eq!(message, "Audio systems back online! Ready to rock and roll!");
}

#[test]
fn ai_personality_test_reset_audio() {
    let mut personality = AIPersonality::default();

    // Change audio settings
    personality.volume = 1_000;
    personality.speech_rate = 1_000;
    personality.audio_enabled = true; // This is already true by default

    let message = personality.reset_audio();

    assert_eq!(personality.volume, 8_000);
    assert_eq!(personality.speech_rate, 10_000);
    assert!(personality.audio_enabled); // Should still be true after reset
    assert!(message.contains("reset"));
}

#[test]
fn ai_personality_test_message_generation() {
    let mut personality = AIPersonality::default();
    let base_message = "System is running normally";

    // Test drunk effect
    personality.drunk_level = 8_000;
    let drunk_message = personality.generate_message(base_message);
    assert!(drunk_message.contains("sh") || drunk_message.contains("..."));

    // Test enthusiasm
    personality.drunk_level = 0;
    personality.enthusiasm = 9_000;
    let enthusiastic_message = personality.generate_message(base_message);
    assert!(enthusiastic_message.contains("!"));

    // Test anxiety
    personality.enthusiasm = 0;
    personality.anxiety_level = 9_000;
    let anxious_message = personality.generate_message(base_message);
    assert!(anxious_message.contains("...") || anxious_message.contains("*nervously*"));
}

#[test]
fn ai_personality_test_personality_effects() {
    let mut personality = AIPersonality::default();
    let text = MessagePart::Static("This is a test.".to_string());
    if let MessagePart::Static(modified) = personality.apply_personality(&text) {
        assert_eq!(modified, "This is a test.");
    } else {
        panic!("Expected Static message part");
    }

    personality.drunk_level = 10_000;
    let text = MessagePart::Static("This is great.".to_string());
    if let MessagePart::Static(modified) = personality.apply_personality(&text) {
        assert!(modified.contains("*hic*") || modified != "This is great.");
    } else {
        panic!("Expected Static message part");
    }

    let dynamic_text = MessagePart::Dynamic("running steady".to_string());
    match personality.apply_personality(&dynamic_text) {
        MessagePart::Dynamic(s) if s == "running steady" => (),
        _ => panic!("Dynamic text should not be modified"),
    }
}

#[test]
fn exact_messages_for_single_traits() {
    let mut p = AIPersonality::default();
    let base = "System is running normally";
    assert_eq!(p.generate_message(base), base);

    p.drunk_level = 8_000;
    assert_eq!(p.generate_message(base), "Syshtem ish rrunning norrmally...");

    p.drunk_level = 0;
    p.enthusiasm = 9_000;
    assert_eq!(p.generate_message(base), "System is running normally!!");

    p.enthusiasm = 0;
    p.anxiety_level = 9_000;
    assert_eq!(p.generate_message(base), "System is running normally... um... er... ");

    p.anxiety_level = 0;
    p.tech_expertise = 8_001;
    assert_eq!(
        p.generate_message(base),
        "System is running normally [Technical analysis: quantum fluctuations nominal]"
    );
}

#[test]
fn enthusiasm_turns_the_full_stop_into_exclamation_marks() {
    let mut p = AIPersonality::default();
    p.enthusiasm = 9_000;
    let spoken = p.generate_message("System is running normally.");
    assert_eq!(spoken, "System is running normally!!!");
    assert!(spoken.ends_with("!!"));
    assert!(!spoken.contains('.'));
}

#[test]
fn thresholds_are_exclusive() {
    assert_eq!(apply_drunk_effect("sir.", 7_000), "sir.");
    assert_eq!(apply_drunk_effect("sir.", 7_001), "shirr....");
    assert_eq!(apply_tech_expertise("ok", 8_000), "ok");
    assert_eq!(apply_anxiety("ok", 7_000), "ok");
    assert_eq!(apply_anxiety("ok", 7_001), "ok... um... er... ");
    assert_eq!(apply_enthusiasm("ok.", 8_000), "ok.");
    assert_eq!(apply_enthusiasm("ok.", 8_001), "ok!!!");
    let phrases = vec!["Beep boop!".to_string()];
    assert_eq!(apply_sass("ok", 5_000, &phrases, 0, 0), "ok");
    assert_eq!(apply_sass("ok", 5_001, &phrases, 0, 0), "ok Beep boop!");
    assert_eq!(apply_grand_pappi("ok", 3_000, &quotes(), 0, 0), "ok");
    assert_eq!(apply_grand_pappi("ok", 3_001, &quotes(), 0, 0), "Grand Pappi would be proud! ok");
}

#[test]
fn runs_scale_with_whole_units_of_intensity() {
    assert_eq!(apply_anxiety("ok", 9_999), "ok... um... er... ");
    assert_eq!(apply_anxiety("ok", 10_000), "ok... um... er... ...");
    assert_eq!(apply_anxiety("ok", 20_000), "ok... um... er... ......");
    assert_eq!(apply_enthusiasm("a.b.", 9_999), "a!b!!!");
    assert_eq!(apply_enthusiasm("a.b.", 10_000), "a!b!!!!!!");
    assert_eq!(apply_enthusiasm("", 20_000), "!!!!!!!!");
}

#[test]
fn chance_steps_follow_the_draw() {
    let phrases = vec!["one".to_string(), "two".to_string(), "three".to_string()];
    // the step applies when the draw is below the level
    assert_eq!(apply_sass("ok", 6_000, &phrases, 5_999, 1), "ok two");
    assert_eq!(apply_sass("ok", 6_000, &phrases, 6_000, 1), "ok");
    // picks wrap around the list
    assert_eq!(apply_sass("ok", 6_000, &phrases, 0, 5), "ok three");
    // an empty list makes the step a no-op, whatever the level
    assert_eq!(apply_sass("ok", 10_000, &vec![], 0, 0), "ok");
    assert_eq!(apply_grand_pappi("ok", 10_000, &vec![], 0, 0), "ok");
    assert_eq!(
        apply_grand_pappi("ok", 4_000, &quotes(), 3_999, 6),
        "Grand Pappi always said this was the way. ok"
    );
    assert_eq!(apply_grand_pappi("ok", 4_000, &quotes(), 4_000, 6), "ok");
}

#[test]
fn steps_apply_in_their_fixed_order() {
    let mut p = AIPersonality::default();
    p.drunk_level = 10_000;
    p.sass_level = 10_000;
    p.tech_expertise = 10_000;
    p.grand_pappi_references = 10_000;
    p.anxiety_level = 10_000;
    p.enthusiasm = 10_000;
    let d = Draws { sass_draw: 0, catchphrase_pick: 2, quote_draw: 0, quote_pick: 3 };
    assert_eq!(
        p.generate_message_with("Pass.", &d),
        "Reminds me of Grand Pappi's workshop!!! Pashsh!!!! Holy processors, Batman! \
         [Technical analysis: quantum fluctuations nominal]!!! um!!! er!!! !!!!!!!!"
    );
    // with unlucky draws the two chance steps stay out
    assert_eq!(
        p.generate_message_with("Pass.", &Draws { sass_draw: 10_000, quote_draw: 10_000, ..d }),
        "Pashsh!!!! [Technical analysis: quantum fluctuations nominal]!!! um!!! er!!! !!!!!!!!"
    );
}

#[test]
fn full_intensity_always_adds_a_catchphrase_and_a_quotation() {
    let mut p = AIPersonality::default();
    p.sass_level = 10_000;
    p.grand_pappi_references = 10_000;
    p.enthusiasm = 0;
    p.tech_expertise = 0;
    for _ in 0..50 {
        let spoken = p.generate_message("ok");
        assert!(quotes().iter().any(|q| spoken.starts_with(&format!("{} ok ", q))));
        assert!(p.catchphrases.iter().any(|c| spoken.ends_with(&format!(" {}", c))));
    }
}

#[test]
fn draws_are_in_range() {
    for _ in 0..200 {
        let d = draw(3);
        assert!((0..10_000).contains(&d.sass_draw));
        assert!((0..10_000).contains(&d.quote_draw));
        assert!(d.catchphrase_pick < 3);
        assert!(d.quote_pick < 4);
    }
    assert_eq!(draw(0).catchphrase_pick, 0);
    assert_eq!(draw(1).catchphrase_pick, 0);
    assert!(draw(0).quote_pick < quotes().len());
    // over many draws the outcomes are not all the same
    let first = draw(1_000_000);
    assert!((0..64).any(|_| {
        let next = draw(1_000_000);
        next.sass_draw != first.sass_draw || next.catchphrase_pick != first.catchphrase_pick
    }));
}

#[test]
fn dynamic_and_full_segments_bypass_the_steps() {
    let mut p = AIPersonality::default();
    p.drunk_level = 10_000;
    p.enthusiasm = 10_000;
    let d = no_luck();
    assert!(matches!(
        p.apply_personality_with(&MessagePart::Dynamic("disk is full.".to_string()), &d),
        MessagePart::Dynamic(t) if t == "disk is full."
    ));
    assert!(matches!(
        p.apply_personality_with(&MessagePart::Full("disk is full.".to_string()), &d),
        MessagePart::Full(t) if t == "disk is full."
    ));
    assert!(matches!(
        p.apply_personality_with(&MessagePart::Static("disk is full.".to_string()), &d),
        MessagePart::Static(t) if t == "dishk ish full!!!!!!!!!"
    ));
}

#[test]
fn compose_skips_blank_text_and_tags_by_content() {
    let p = AIPersonality::default();
    let d = no_luck();
    assert!(p.compose_with("", &d).is_empty());
    assert!(p.compose_with(" \t\n ", &d).is_empty());
    assert!(p.compose("   ").is_empty());

    let parts = p.compose_with("  System   is running normally. ", &d);
    assert_eq!(parts.len(), 1);
    assert!(matches!(&parts[0], MessagePart::Static(t) if t == "System is running normally."));

    let parts = p.compose_with("CPU usage is at   92.3%", &d);
    assert_eq!(parts.len(), 1);
    assert!(matches!(&parts[0], MessagePart::Dynamic(t) if t == "CPU usage is at 92.3%"));
}

#[test]
fn live_values_are_keyed_by_their_bucket() {
    let mut p = AIPersonality::default();
    p.anxiety_level = 0;
    p.enthusiasm = 0;
    p.sass_level = 0;
    let settings = p.to_settings();

    let first = p.compose("CPU usage is at 92.3%");
    assert_eq!(first.len(), 1);
    assert_eq!(first[0].text(), "CPU usage is at 92.3%");
    let key = CacheKey::derive(&first[0], &settings);
    assert_eq!(key, CacheKey::Dynamic("90".to_string()));

    let second = p.compose("CPU usage is at 93.8%");
    let other = CacheKey::derive(&second[0], &settings);
    assert_eq!(other, CacheKey::Dynamic("95".to_string()));
    assert_ne!(key, other);
}

#[test]
fn settings_are_whole_percentage_points() {
    let mut p = AIPersonality::default();
    p.drunk_level = 1_234;
    p.anxiety_level = 9_999;
    p.speech_rate = 12_550;
    let s = p.to_settings();
    assert_eq!(s.voice_type, "alloy");
    assert_eq!(s.volume, 80);
    assert_eq!(s.speech_rate, 125);
    assert_eq!(s.drunk_level, 12);
    assert_eq!(s.sass_level, 50);
    assert_eq!(s.tech_expertise, 70);
    assert_eq!(s.grand_pappi_refs, 30);
    assert_eq!(s.enthusiasm, 60);
    assert_eq!(s.anxiety_level, 99);
    assert_eq!(s.catchphrases, p.catchphrases);
    assert!(s.audio_enabled);
    assert!(!s.is_1337_mode);
    assert_eq!(quantize_level(-150), -1);
    assert_eq!(quantize_level(-99), 0);
    assert_eq!(quantize_level(i32::MIN), -21_474_836);
    assert_eq!(quantize_level(i32::MAX), 21_474_836);
}

#[test]
fn fourth_decimal_place_does_not_change_the_key() {
    let mut a = AIPersonality::default();
    let mut b = AIPersonality::default();
    a.enthusiasm = 6_120;
    b.enthusiasm = 6_129;
    a.anxiety_level = 2_007;
    b.anxiety_level = 2_001;
    a.speech_rate = 10_000;
    b.speech_rate = 10_004;
    let part = MessagePart::Static("All systems nominal".to_string());
    assert_eq!(
        CacheKey::derive(&part, &a.to_settings()),
        CacheKey::derive(&part, &b.to_settings())
    );
    // the second decimal place does
    b.enthusiasm = 6_200;
    assert_ne!(
        CacheKey::derive(&part, &a.to_settings()),
        CacheKey::derive(&part, &b.to_settings())
    );
}

#[test]
fn clamping_leaves_values_in_range_alone() {
    let mut p = AIPersonality::default();
    p.volume = 0;
    p.speech_rate = 5_000;
    p.enthusiasm = 10_000;
    p.clamp_values();
    assert_eq!(p.volume, 0);
    assert_eq!(p.speech_rate, 5_000);
    assert_eq!(p.enthusiasm, 10_000);
    assert_eq!(p.sass_level, 5_000);
    p.speech_rate = i32::MAX;
    p.volume = i32::MIN;
    p.clamp_values();
    assert_eq!(p.speech_rate, 20_000);
    assert_eq!(p.volume, 0);
    assert_eq!(clamp_level(7, 0, 10), 7);
    assert_eq!(clamp_level(-7, 0, 10), 0);
    assert_eq!(clamp_level(70, 0, 10), 10);
}

#[test]
fn mode_toggle_and_exit_message() {
    let mut p = AIPersonality::default();
    assert!(p.is_initialized());
    assert_eq!(p.toggle_1337_mode(), "WARP DRIVE ENGAGED! Time to show these bits who's boss!");
    assert!(p.is_1337_mode);
    assert_eq!(p.toggle_1337_mode(), "Returning to normal space-time. That was quite a ride!");
    assert!(!p.is_1337_mode);
    assert_eq!(
        p.get_exit_message(),
        "Shutting down systems. Grand Pappi always said to leave things better than we found them. Stay awesome, Captain!"
    );
}

#[test]
fn known_voices() {
    for voice in ["alloy", "echo", "fable", "nova", "onyx", "shimmer"] {
        assert!(is_known_voice(voice));
    }
    assert!(is_known_voice(&AIPersonality::default().voice_type));
    assert!(!is_known_voice("Alloy"));
    assert!(!is_known_voice("default"));
    assert!(!is_known_voice(""));
}
