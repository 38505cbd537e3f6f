use moleculer::downloader::{
    all_present, check_download_status, file_url, files_to_download, required_files, should_skip, summarize,
    FileOutcome,
};
use moleculer::tts::{
    node_health, poll_step, refused_reply, reply_audio, service_health, synthesis_reply, synthesis_response,
    PollAction, SynthesisRoute, RESPONSE_POLL_ATTEMPTS, RESPONSE_POLL_INTERVAL_MS,
    available_languages, default_denoising_steps, default_denoising_steps_val, default_lang,
    invalid_language_message, is_valid_lang, synthesis_failed_message, list_languages, resolve_denoising_steps, synthesis_precheck,
    text_preview, wav_base64, wav_bytes, wav_file_name, HealthResponse, LanguageListRequest,
};

#[test]
fn languages_listed_and_valid() {
    let langs = available_languages();
    let codes: Vec<&str> = langs.iter().map(|l| l.code.as_str()).collect();
    let names: Vec<&str> = langs.iter().map(|l| l.name.as_str()).collect();
    assert_eq!(codes, vec!["en", "ko", "es", "pt", "fr"]);
    assert_eq!(names, vec!["English", "Korean", "Spanish", "Portuguese", "French"]);
    for code in codes {
        assert!(is_valid_lang(code));
    }
    assert!(!is_valid_lang("de"));
    assert!(!is_valid_lang("EN"));
    assert!(!is_valid_lang(""));
    assert_eq!(list_languages().languages.len(), 5);
    let _ = LanguageListRequest {};
    let h = HealthResponse { status: "ok".to_string(), node_id: "n".to_string() };
    assert_eq!(h.status, "ok");
}

#[test]
fn synthesis_checks_in_order() {
    assert!(synthesis_precheck("en", true, true).is_ok());
    assert_eq!(
        synthesis_precheck("xx", false, false).unwrap_err(),
        "Invalid language: xx. Available: [\"en\", \"ko\", \"es\", \"pt\", \"fr\"]"
    );
    assert_eq!(synthesis_precheck("ko", false, false).unwrap_err(), "TTS engine not initialized");
    assert_eq!(synthesis_precheck("fr", true, false).unwrap_err(), "Voice style not initialized");
    assert_eq!(
        invalid_language_message("de"),
        "Invalid language: de. Available: [\"en\", \"ko\", \"es\", \"pt\", \"fr\"]"
    );
}

#[test]
fn defaults() {
    assert_eq!(default_lang(), "en");
    assert_eq!(default_denoising_steps_val(), 4);
    assert_eq!(default_denoising_steps(), Some(4));
    assert_eq!(resolve_denoising_steps(None, 4), 4);
    assert_eq!(resolve_denoising_steps(None, 8), 8);
    assert_eq!(resolve_denoising_steps(Some(9), 8), 9);
}

#[test]
fn wav_container_bytes() {
    let pcm: [i16; 5] = [0, 1, -1, 32767, -32768];
    let w = wav_bytes(&pcm, 22050);
    assert_eq!(
        w,
        vec![
            82, 73, 70, 70, 46, 0, 0, 0, 87, 65, 86, 69, 102, 109, 116, 32, 16, 0, 0, 0, 1, 0, 1, 0, 34, 86, 0, 0,
            68, 172, 0, 0, 2, 0, 16, 0, 100, 97, 116, 97, 10, 0, 0, 0, 0, 0, 1, 0, 255, 255, 255, 127, 0, 128
        ]
    );
    let empty = wav_bytes(&[], 8000);
    assert_eq!(empty.len(), 44);
    assert_eq!(&empty[4..8], &[36, 0, 0, 0]);
    assert_eq!(&empty[40..44], &[0, 0, 0, 0]);
}

#[test]
fn wav_base64_text() {
    let pcm: [i16; 5] = [0, 1, -1, 32767, -32768];
    assert_eq!(
        wav_base64(&pcm, 22050),
        "UklGRi4AAABXQVZFZm10IBAAAAABAAEAIlYAAESsAAACABAAZGF0YQoAAAAAAAEA////fwCA"
    );
}

#[test]
fn previews_and_file_names() {
    assert_eq!(text_preview("Hello, world!"), "Hello__world_");
    assert_eq!(text_preview("한국어 텍스트"), "한국어_텍스트");
    assert_eq!(text_preview(""), "");
    let long = "abcdefghijklmnopqrstuvwxyz0123456789";
    assert_eq!(text_preview(long), "abcdefghijklmnopqrstuvwxyz0123");
    assert_eq!(
        wav_file_name("./output", "en", "Hi there", 1700000000),
        "./output/en_Hi_there_1700000000.wav"
    );
}

#[test]
fn downloader_plan() {
    assert_eq!(
        required_files(),
        vec![
            "tokenizer_config.json",
            "config.json",
            "tokenizer.json",
            "voice_decoder.onnx",
            "latent_denoiser.onnx",
            "text_encoder.onnx"
        ]
    );
    assert_eq!(files_to_download(None).len(), 6);
    assert_eq!(files_to_download(Some(vec!["a.onnx".to_string()])), vec!["a.onnx".to_string()]);
    assert_eq!(
        file_url("Supertone/supertonic", "config.json"),
        "https://huggingface.co/Supertone/supertonic/resolve/main/onnx/config.json"
    );
    assert!(should_skip(false, Some(10)));
    assert!(!should_skip(false, Some(0)));
    assert!(!should_skip(false, None));
    assert!(!should_skip(true, Some(10)));
    assert!(check_download_status(200).is_ok());
    assert_eq!(check_download_status(302).unwrap_err(), "HTTP error: 302");
    assert!(all_present(&[true, true]));
    assert!(all_present(&[]));
    assert!(!all_present(&[true, false]));
    let s = summarize(&[FileOutcome::Downloaded, FileOutcome::Failed, FileOutcome::Skipped, FileOutcome::Skipped]);
    assert_eq!((s.downloaded, s.skipped, s.failed), (1, 2, 1));
    assert!(s.has_failures());
    assert!(!summarize(&[FileOutcome::Skipped]).has_failures());
}

#[test]
fn base64_padding_and_sizes() {
    // One sample: 46 bytes of WAV, 64 characters of base64 ending in padding.
    let s = wav_base64(&[0x0102], 8000);
    assert_eq!(s.len(), 64);
    assert!(s.ends_with("AAACAQ=="));
    let w = wav_bytes(&[0x0102], 8000);
    assert_eq!(w.len(), 46);
    assert_eq!(&w[24..28], &[0x40, 0x1f, 0, 0]);
    assert_eq!(&w[28..32], &[0x80, 0x3e, 0, 0]);
}

#[test]
fn synthesis_failure_report() {
    assert_eq!(synthesis_failed_message("out of memory"), "Synthesis failed: out of memory");
}

#[test]
fn synthesis_replies() {
    let ok = synthesis_reply(Ok(vec![0, 1, -1, 32767, -32768]), 22050);
    assert!(ok.success);
    assert_eq!(
        ok.audio.as_deref(),
        Some("UklGRi4AAABXQVZFZm10IBAAAAABAAEAIlYAAESsAAACABAAZGF0YQoAAAAAAAEA////fwCA")
    );
    assert_eq!(ok.sample_rate, Some(22050));
    assert!(ok.error.is_none());
    let failed = synthesis_reply(Err("no model".to_string()), 22050);
    assert!(!failed.success);
    assert!(failed.audio.is_none() && failed.sample_rate.is_none());
    assert_eq!(failed.error.as_deref(), Some("Synthesis failed: no model"));
    let refused = refused_reply("TTS engine not initialized".to_string());
    assert!(!refused.success);
    assert_eq!(refused.error.as_deref(), Some("TTS engine not initialized"));
}

#[test]
fn synthesis_responses_by_route() {
    let pcm = vec![0i16, 1, -1, 32767, -32768];
    let ok = synthesis_response(SynthesisRoute::Action, Ok(Ok(pcm.clone())), 22050);
    assert!(ok.success);
    assert_eq!(ok.audio, Some(wav_base64(&pcm, 22050)));
    assert_eq!(ok.sample_rate, Some(22050));
    assert!(ok.error.is_none());
    let direct_ok = synthesis_response(SynthesisRoute::Direct, Ok(Ok(pcm.clone())), 44100);
    assert!(direct_ok.success);
    assert_eq!(direct_ok.audio, Some(wav_base64(&pcm, 44100)));
    assert_eq!(direct_ok.sample_rate, Some(44100));
    let failed = synthesis_response(SynthesisRoute::Action, Ok(Err("no model".to_string())), 22050);
    assert!(!failed.success && failed.audio.is_none() && failed.sample_rate.is_none());
    assert_eq!(failed.error.as_deref(), Some("Synthesis failed: no model"));
    let direct_failed = synthesis_response(SynthesisRoute::Direct, Ok(Err("no model".to_string())), 22050);
    assert!(!direct_failed.success && direct_failed.audio.is_none());
    assert_eq!(direct_failed.error.as_deref(), Some("no model"));
    for route in [SynthesisRoute::Action, SynthesisRoute::Direct] {
        let refused = synthesis_response(route, Err("Voice style not initialized".to_string()), 22050);
        assert!(!refused.success && refused.audio.is_none() && refused.sample_rate.is_none());
        assert_eq!(refused.error.as_deref(), Some("Voice style not initialized"));
    }
}

#[test]
fn reply_audio_round_trip() {
    for pcm in [vec![], vec![7i16], vec![1, 2], vec![-1, 0, 1, i16::MIN, i16::MAX, 300]] {
        let reply = synthesis_response(SynthesisRoute::Action, Ok(Ok(pcm.clone())), 24000);
        let decoded = reply_audio(reply.success, reply.audio.as_deref()).expect("audio of a successful reply");
        assert_eq!(decoded, wav_bytes(&pcm, 24000));
    }
}

#[test]
fn response_polling_steps() {
    assert_eq!(RESPONSE_POLL_ATTEMPTS, 30);
    assert_eq!(RESPONSE_POLL_INTERVAL_MS, 500);
    assert_eq!(poll_step(0, true), PollAction::Read);
    assert_eq!(poll_step(0, false), PollAction::Wait);
    assert_eq!(poll_step(29, false), PollAction::Wait);
    assert_eq!(poll_step(29, true), PollAction::Read);
    assert_eq!(poll_step(30, true), PollAction::GiveUp);
    assert_eq!(poll_step(30, false), PollAction::GiveUp);
    let mut attempt = 0u32;
    let mut waits = 0u32;
    while poll_step(attempt, false) == PollAction::Wait {
        waits += 1;
        attempt += 1;
    }
    assert_eq!(waits, 30);
}

#[test]
fn reply_audio_decodes_valid_text_only() {
    let text = wav_base64(&[0, 1, -1, 32767, -32768], 22050);
    let bytes = reply_audio(true, Some(&text)).expect("valid audio");
    assert_eq!(bytes, wav_bytes(&[0, 1, -1, 32767, -32768], 22050));
    assert_eq!(reply_audio(true, Some("TWFu")), Some(b"Man".to_vec()));
    assert_eq!(reply_audio(true, Some("TWE=")), Some(b"Ma".to_vec()));
    assert_eq!(reply_audio(false, Some("TWFu")), None);
    assert_eq!(reply_audio(true, None), None);
    assert_eq!(reply_audio(true, Some("TWF")), None);
    assert_eq!(reply_audio(true, Some("TWF=")), None);
    assert_eq!(reply_audio(true, Some("T@Fu")), None);
    assert_eq!(reply_audio(true, Some("")), Some(Vec::new()));
}

#[test]
fn health_answers() {
    let h = service_health(true, false);
    assert_eq!(h.status, "healthy");
    assert!(h.tts_engine_loaded && !h.voice_style_loaded);
    let n = node_health("tts-service");
    assert_eq!(n.status, "ok");
    assert_eq!(n.node_id, "tts-service");
}
