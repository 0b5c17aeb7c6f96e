//! The voice and the ears, as far as they are logic: what a synthesis or
//! transcription reply comes to, the text an error carries, and the short
//! silent clip that warms the recognizer. The HTTP exchanges with the model
//! engine happen at the edge.

use vstd::prelude::*;
use vstd::string::StringExecFns;

use crate::json::{Json, JsonV};
use crate::text::{chars_of, owned, push_char, string_of, trim, trim_bounds};

verus! {

/// Synthesized speech for one turn: base64 audio and its MIME type.
#[derive(Debug, Clone, PartialEq)]
pub struct TtsAudio {
    pub b64: String,
    pub mime: String,
}

/// The first `n` characters of `s`.
pub open spec fn take_chars(s: Seq<char>, n: nat) -> Seq<char> {
    if s.len() <= n {
        s
    } else {
        s.subrange(0, n as int)
    }
}

/// The first `n` characters of `s` (for error messages quoting a reply).
pub fn first_chars(s: &str, n: usize) -> (r: String)
    ensures
        r@ == take_chars(s@, n as nat),
{
    let cs = chars_of(s);
    let end = if cs.len() <= n {
        cs.len()
    } else {
        n
    };
    string_of(&cs.as_slice()[0..end])
}

// ---------------------------------------------------------------------------
// Base64.
// ---------------------------------------------------------------------------

/// The standard base64 alphabet.
pub open spec fn b64_char(v: nat) -> char {
    if v < 26 {
        (v + 'A' as nat) as char
    } else if v < 52 {
        (v - 26 + 'a' as nat) as char
    } else if v < 62 {
        (v - 52 + '0' as nat) as char
    } else if v == 62 {
        '+'
    } else {
        '/'
    }
}

/// Standard base64 with `=` padding: each 3 bytes become 4 characters.
pub open spec fn base64_of(b: Seq<u8>) -> Seq<char>
    decreases b.len(),
{
    if b.len() == 0 {
        seq![]
    } else if b.len() == 1 {
        seq![b64_char(b[0] as nat / 4), b64_char((b[0] as nat % 4) * 16), '=', '=']
    } else if b.len() == 2 {
        seq![
            b64_char(b[0] as nat / 4),
            b64_char((b[0] as nat % 4) * 16 + b[1] as nat / 16),
            b64_char((b[1] as nat % 16) * 4),
            '=',
        ]
    } else {
        seq![
            b64_char(b[0] as nat / 4),
            b64_char((b[0] as nat % 4) * 16 + b[1] as nat / 16),
            b64_char((b[1] as nat % 16) * 4 + b[2] as nat / 64),
            b64_char(b[2] as nat % 64),
        ] + base64_of(b.subrange(3, b.len() as int))
    }
}

/// `base64::engine::general_purpose::STANDARD.encode`: standard alphabet,
/// `=` padding.
#[verifier::external_body]
fn base64_encode(bytes: &[u8]) -> (r: String)
    ensures
        r@ == base64_of(bytes@),
{
    base64::Engine::encode(&base64::engine::general_purpose::STANDARD, bytes)
}

// ---------------------------------------------------------------------------
// Synthesis.
// ---------------------------------------------------------------------------

/// What a synthesis reply comes to: `503` means the engine is still warming
/// up, any other failure status is an error quoting the reply, and a success
/// must carry audio, which is base64-encoded and tagged with its content type
/// (`audio/wav` when none is given).
pub open spec fn speech_result(status: u16, status_text: Seq<char>, body: Seq<char>, content_type: Option<Seq<char>>, bytes: Seq<u8>) -> Result<(Seq<char>, Seq<char>), Seq<char>> {
    if status == 503 {
        Err("speech engine warming up: "@ + take_chars(body, 200))
    } else if !(200 <= status < 300) {
        Err("speech synthesis failed (HTTP "@ + status_text + "): "@ + take_chars(body, 300))
    } else if bytes.len() == 0 {
        Err("speech engine returned no audio"@)
    } else {
        Ok((base64_of(bytes), match content_type {
            Some(t) => t,
            None => "audio/wav"@,
        }))
    }
}

/// Read a synthesis reply: its status (code and display text), body text
/// (for failures), content type and audio bytes (for success).
pub fn speech_outcome(status: u16, status_text: &str, body: &str, content_type: Option<&str>, bytes: &[u8]) -> (r: Result<TtsAudio, String>)
    ensures
        match speech_result(status, status_text@, body@, match content_type {
            Some(t) => Some(t@),
            None => None,
        }, bytes@) {
            Ok((b, m)) => r matches Ok(a) && a.b64@ == b && a.mime@ == m,
            Err(e) => r matches Err(x) && x@ == e,
        },
{
    if status == 503 {
        let mut e = owned("speech engine warming up: ");
        e.append(first_chars(body, 200).as_str());
        return Err(e);
    }
    if !(200 <= status && status < 300) {
        let mut e = owned("speech synthesis failed (HTTP ");
        e.append(status_text);
        e.append("): ");
        e.append(first_chars(body, 300).as_str());
        return Err(e);
    }
    if bytes.len() == 0 {
        return Err(owned("speech engine returned no audio"));
    }
    let mime = match content_type {
        Some(t) => owned(t),
        None => owned("audio/wav"),
    };
    Ok(TtsAudio { b64: base64_encode(bytes), mime })
}

/// The synthesis request body: `{input}`, plus `voice` when one is chosen.
pub fn speech_request(text: &str, voice: Option<&str>) -> (r: Json)
    ensures
        r@ == JsonV::Object(seq![("input"@, JsonV::Str(text@))] + match voice {
            Some(v) => seq![("voice"@, JsonV::Str(v@))],
            None => seq![],
        }),
{
    let mut m = vec![(owned("input"), Json::text(text))];
    let ghost first = crate::json::pairs_view(m@);
    assert(first =~= seq![("input"@, JsonV::Str(text@))]);
    match voice {
        Some(v) => {
            m.push((owned("voice"), Json::text(v)));
            assert(crate::json::pairs_view(m@) =~= first + seq![("voice"@, JsonV::Str(v@))]);
        },
        None => {
            assert(crate::json::pairs_view(m@) =~= first + Seq::<(Seq<char>, JsonV)>::empty());
        },
    }
    crate::event::object(m)
}

// ---------------------------------------------------------------------------
// Transcription.
// ---------------------------------------------------------------------------

/// What a transcription reply comes to: `503` is a warming engine, another
/// failure status an error quoting the reply; a success is its `text`,
/// trimmed (empty when there is none — silence says nothing).
pub open spec fn transcript_result(status: u16, status_text: Seq<char>, body: Seq<char>, reply: Option<JsonV>) -> Result<Seq<char>, Seq<char>> {
    if status == 503 {
        Err("transcription engine warming up: "@ + take_chars(body, 200))
    } else if !(200 <= status < 300) {
        Err("transcription failed (HTTP "@ + status_text + "): "@ + take_chars(body, 300))
    } else {
        match reply {
            None => Err("bad transcription response"@),
            Some(v) => Ok(trim(match v.str_member("text"@) {
                Some(t) => t,
                None => seq![],
            })),
        }
    }
}

/// Read a transcription reply (`reply` is its body parsed as JSON, `None`
/// when it is not JSON).
pub fn transcript_outcome(status: u16, status_text: &str, body: &str, reply: Option<&Json>) -> (r: Result<String, String>)
    ensures
        match transcript_result(status, status_text@, body@, match reply {
            Some(v) => Some(v@),
            None => None,
        }) {
            Ok(t) => r matches Ok(x) && x@ == t,
            Err(e) => r matches Err(x) && x@ == e,
        },
{
    if status == 503 {
        let mut e = owned("transcription engine warming up: ");
        e.append(first_chars(body, 200).as_str());
        return Err(e);
    }
    if !(200 <= status && status < 300) {
        let mut e = owned("transcription failed (HTTP ");
        e.append(status_text);
        e.append("): ");
        e.append(first_chars(body, 300).as_str());
        return Err(e);
    }
    match reply {
        None => Err(owned("bad transcription response")),
        Some(v) => {
            let t = match v.get_str("text") {
                Some(t) => t,
                None => "",
            };
            let cs = chars_of(t);
            let (b, e) = trim_bounds(&cs);
            proof {
                if v@.str_member("text"@) is None {
                    reveal_strlit("");
                }
            }
            Ok(string_of(&cs.as_slice()[b..e]))
        },
    }
}

// ---------------------------------------------------------------------------
// The warm-up clip.
// ---------------------------------------------------------------------------

/// `x` as 4 little-endian bytes.
pub open spec fn le32(x: nat) -> Seq<u8> {
    seq![(x % 256) as u8, ((x / 256) % 256) as u8, ((x / 65536) % 256) as u8, ((x / 16777216) % 256) as u8]
}

/// `x` as 2 little-endian bytes.
pub open spec fn le16(x: nat) -> Seq<u8> {
    seq![(x % 256) as u8, ((x / 256) % 256) as u8]
}

/// A mono 16-bit PCM WAV of `ms` milliseconds of silence at 16 kHz: the
/// 44-byte header, then `32 * ms` zero bytes.
pub open spec fn silent_wav(ms: nat) -> Seq<u8> {
    let data_len = 32 * ms;
    seq![82u8, 73, 70, 70] + le32(36 + data_len) + seq![87u8, 65, 86, 69] + seq![102u8, 109, 116, 32] + le32(16)
        + le16(1) + le16(1) + le32(16000) + le32(32000) + le16(2) + le16(16) + seq![100u8, 97, 116, 97]
        + le32(data_len) + Seq::new(data_len, |i: int| 0u8)
}

fn push_le32(w: &mut Vec<u8>, x: u32)
    ensures
        final(w)@ == old(w)@ + le32(x as nat),
{
    w.push((x % 256) as u8);
    w.push(((x / 256) % 256) as u8);
    w.push(((x / 65536) % 256) as u8);
    w.push(((x / 16777216) % 256) as u8);
    assert(final(w)@ =~= old(w)@ + le32(x as nat));
}

fn push_le16(w: &mut Vec<u8>, x: u16)
    ensures
        final(w)@ == old(w)@ + le16(x as nat),
{
    w.push((x % 256) as u8);
    w.push(((x / 256) % 256) as u8);
    assert(final(w)@ =~= old(w)@ + le16(x as nat));
}

fn push_bytes(w: &mut Vec<u8>, a: u8, b: u8, c: u8, d: u8)
    ensures
        final(w)@ == old(w)@ + seq![a, b, c, d],
{
    w.push(a);
    w.push(b);
    w.push(c);
    w.push(d);
    assert(final(w)@ =~= old(w)@ + seq![a, b, c, d]);
}

/// A short silent clip, just enough of a valid container to warm the
/// recognizer.
pub fn silent_wav_16k(ms: u32) -> (r: Vec<u8>)
    requires
        32 * ms + 44 <= u32::MAX,
    ensures
        r@ == silent_wav(ms as nat),
{
    let samples: u32 = 16 * ms;
    let data_len: u32 = samples * 2;
    let mut w: Vec<u8> = Vec::new();
    push_bytes(&mut w, 82, 73, 70, 70);
    push_le32(&mut w, 36 + data_len);
    push_bytes(&mut w, 87, 65, 86, 69);
    push_bytes(&mut w, 102, 109, 116, 32);
    push_le32(&mut w, 16);
    push_le16(&mut w, 1);
    push_le16(&mut w, 1);
    push_le32(&mut w, 16000);
    push_le32(&mut w, 32000);
    push_le16(&mut w, 2);
    push_le16(&mut w, 16);
    push_bytes(&mut w, 100, 97, 116, 97);
    push_le32(&mut w, data_len);
    let ghost header = w@;
    let mut k: u32 = 0;
    while k < data_len
        invariant
            k <= data_len,
            w@ == header + Seq::new(k as nat, |i: int| 0u8),
        decreases data_len - k,
    {
        w.push(0);
        assert(w@ =~= header + Seq::new((k + 1) as nat, |i: int| 0u8));
        k = k + 1;
    }
    assert(header + Seq::new(data_len as nat, |i: int| 0u8) =~= silent_wav(ms as nat));
    w
}

} // verus!
