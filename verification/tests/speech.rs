use myo::json::Json;
use myo::speech::{first_chars, silent_wav_16k, speech_outcome, speech_request, transcript_outcome};

#[test]
fn silent_wav_has_a_valid_riff_header() {
    let w = silent_wav_16k(100);
    assert_eq!(&w[0..4], b"RIFF");
    assert_eq!(&w[8..12], b"WAVE");
    assert_eq!(w.len(), 44 + 3200);
}

#[test]
fn silent_wav_header_declares_16k_mono_pcm() {
    let w = silent_wav_16k(10);
    assert_eq!(&w[12..16], b"fmt ");
    assert_eq!(u32::from_le_bytes([w[24], w[25], w[26], w[27]]), 16_000);
    assert_eq!(u16::from_le_bytes([w[22], w[23]]), 1);
    assert_eq!(&w[36..40], b"data");
    assert_eq!(u32::from_le_bytes([w[40], w[41], w[42], w[43]]), 320);
    assert!(w[44..].iter().all(|b| *b == 0));
}

#[test]
fn audio_is_base64_encoded_with_its_type() {
    let a = speech_outcome(200, "200 OK", "", Some("audio/mpeg"), b"hi").unwrap();
    assert_eq!(a.b64, "aGk=");
    assert_eq!(a.mime, "audio/mpeg");
    let b = speech_outcome(200, "200 OK", "", None, b"abc").unwrap();
    assert_eq!(b.b64, "YWJj");
    assert_eq!(b.mime, "audio/wav");
}

#[test]
fn speech_failures_are_explained() {
    assert_eq!(
        speech_outcome(503, "503 Service Unavailable", "pulling", None, b""),
        Err("speech engine warming up: pulling".to_string())
    );
    assert_eq!(
        speech_outcome(500, "500 Internal Server Error", "boom", None, b""),
        Err("speech synthesis failed (HTTP 500 Internal Server Error): boom".to_string())
    );
    assert_eq!(
        speech_outcome(200, "200 OK", "", None, b""),
        Err("speech engine returned no audio".to_string())
    );
}

#[test]
fn transcription_replies_are_read() {
    let reply = Json::parse(r#"{"text":"  hello world ","model":"moonshine"}"#).unwrap();
    assert_eq!(transcript_outcome(200, "200 OK", "", Some(&reply)), Ok("hello world".to_string()));
    let empty = Json::parse(r#"{"text":""}"#).unwrap();
    assert_eq!(transcript_outcome(200, "200 OK", "", Some(&empty)), Ok(String::new()));
    let err = transcript_outcome(503, "503 Service Unavailable", "warming", None).unwrap_err();
    assert!(err.contains("warming up"));
    assert_eq!(transcript_outcome(200, "200 OK", "nope", None), Err("bad transcription response".to_string()));
}

#[test]
fn long_error_bodies_are_cut() {
    let body = "x".repeat(500);
    let err = speech_outcome(503, "503", &body, None, b"").unwrap_err();
    assert_eq!(err.len(), "speech engine warming up: ".len() + 200);
    assert_eq!(first_chars("héllo", 2), "hé");
}

#[test]
fn speech_request_names_the_voice_when_given() {
    assert_eq!(speech_request("hi", None), Json::parse(r#"{"input":"hi"}"#).unwrap());
    let r = speech_request("hi", Some("amy"));
    assert_eq!(r.get("voice"), Some(&Json::Str("amy".into())));
}
