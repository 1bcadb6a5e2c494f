//! Speech synthesis: the offsets of rate and pitch, the settings handed to the
//! synthesis service, and what a synthesis run reports.
use vstd::prelude::*;
use crate::error::{ToolError, runtime};
use crate::number::{decimal_digits, decimal_string, parse_i32, parse_i32_spec, lemma_decimal_digits, all_digits, is_digit, digits_value};
use crate::text::{chars_of, concat, trim, trim_end_char, trim_end_char_index, trim_end_seq, trim_end_seq_index, trim_range, trim_start_char, trim_start_char_index, is_white_space,
    all_white_space, lemma_trim_ws_around};

verus! {

/// The text of an offset such as `+10%` or `-5Hz` once white space, leading
/// `+`, trailing `%` and trailing `Hz` are removed.
pub open spec fn offset_text(s: Seq<char>) -> Seq<char> {
    trim(trim_end_seq(trim_end_char(trim_start_char(trim(s), '+'), '%'), seq!['H', 'z']))
}

/// The offset that `s` denotes: the integer left by `offset_text`, or 0 when
/// that is not an `i32`.
pub open spec fn offset_value(s: Seq<char>) -> i32 {
    match parse_i32_spec(offset_text(s)) {
        Some(v) => v as i32,
        None => 0,
    }
}

/// Reads an offset such as `"+10%"`, `"-5Hz"` or `"10"` as an integer; any text
/// that does not denote an `i32` gives 0.
pub fn parse_offset(s: &str) -> (r: i32)
    ensures
        r == offset_value(s@),
{
    let c = chars_of(s);
    let cs = c.as_slice();
    let n = cs.len();
    assert(cs@.subrange(0, n as int) =~= s@);
    let (a, b) = trim_range(cs, 0, n);
    let a2 = trim_start_char_index(cs, a, b, '+');
    let b2 = trim_end_char_index(cs, a2, b, '%');
    let hz = ['H', 'z'];
    assert(hz@ =~= seq!['H', 'z']);
    let b3 = trim_end_seq_index(cs, a2, b2, &hz);
    let (a4, b4) = trim_range(cs, a2, b3);
    match parse_i32(&cs[a4..b4]) {
        Some(v) => v,
        None => 0,
    }
}

/// The settings of one synthesis request.
pub struct SpeechSettings {
    pub voice_name: String,
    pub audio_format: String,
    pub pitch: i32,
    pub rate: i32,
    pub volume: i32,
}

/// The settings for `voice` at `rate` and `pitch`: 24 kHz 48 kbit/s mono mp3,
/// volume offset 0, rate and pitch read by `parse_offset`.
pub fn speech_settings(voice: &str, rate: &str, pitch: &str) -> (r: SpeechSettings)
    ensures
        r.voice_name@ == voice@,
        r.audio_format@ == "audio-24khz-48kbitrate-mono-mp3"@,
        r.pitch == offset_value(pitch@),
        r.rate == offset_value(rate@),
        r.volume == 0,
{
    SpeechSettings {
        voice_name: String::from_str(voice),
        audio_format: String::from_str("audio-24khz-48kbitrate-mono-mp3"),
        pitch: parse_offset(pitch),
        rate: parse_offset(rate),
        volume: 0,
    }
}

/// The audio of a synthesis, refused when it is empty (the voice name is then
/// probably not one the service knows).
pub fn check_audio(audio: Vec<u8>) -> (r: Result<Vec<u8>, String>)
    ensures
        audio@.len() == 0 ==> (r matches Err(m) && m@ == "empty audio (voice name 可能无效)"@),
        audio@.len() > 0 ==> r == Ok::<Vec<u8>, String>(audio),
{
    if audio.len() == 0 {
        Err(String::from_str("empty audio (voice name 可能无效)"))
    } else {
        Ok(audio)
    }
}

/// The error of a failed synthesis whose cause reads `message`.
pub fn tts_failure(message: &str) -> (r: ToolError)
    ensures
        r.parts() == runtime("edge-tts: "@ + message@),
{
    ToolError::Runtime(concat("edge-tts: ", message))
}

/// A text-to-speech request.
pub struct EdgeTTS {
    /// The text to read.
    pub text: String,
    /// The voice, such as `zh-CN-XiaoxiaoNeural`.
    pub voice: String,
    /// The rate offset, such as `+0%`.
    pub rate: String,
    /// The pitch offset, such as `+0Hz`.
    pub pitch: String,
    /// Where to write the mp3; by default under `/tmp/lly`.
    pub output: Option<String>,
}

/// The file a synthesis for `request` is written to: the requested one, else
/// `/tmp/lly/tts_<now_secs>.mp3`.
pub fn tts_output_path(request: &EdgeTTS, now_secs: u64) -> (r: String)
    ensures
        match request.output {
            Some(p) => r@ == p@,
            None => r@ == "/tmp/lly/tts_"@ + decimal_digits(now_secs as nat) + ".mp3"@,
        },
{
    match &request.output {
        Some(p) => String::from_str(p.as_str()),
        None => {
            let ts = decimal_string(now_secs);
            let head = concat("/tmp/lly/tts_", ts.as_str());
            concat(head.as_str(), ".mp3")
        },
    }
}

/// What a synthesis run reports.
pub struct TtsReport {
    pub path: String,
    pub bytes: usize,
    /// Seconds of audio, at 48 kbit/s about 6000 bytes a second.
    pub estimate_seconds: u64,
    pub voice: String,
}

/// The report of `bytes` bytes of audio for `request` written to `path`.
pub fn tts_report(path: String, bytes: usize, request: &EdgeTTS) -> (r: TtsReport)
    ensures
        r.path == path,
        r.bytes == bytes,
        r.estimate_seconds == bytes / 6000,
        r.voice@ == request.voice@,
{
    TtsReport {
        path,
        bytes,
        estimate_seconds: (bytes / 6000) as u64,
        voice: String::from_str(request.voice.as_str()),
    }
}


/// Text that starts and ends with a non-white-space character is left as it is by `trim`.
proof fn lemma_trim_noop(s: Seq<char>)
    requires
        s.len() > 0,
        !is_white_space(s[0]),
        !is_white_space(s.last()),
    ensures
        trim(s) == s,
{
}

/// The digits of a number neither start nor end with white space or the
/// characters `+`, `%`, `z`.
proof fn lemma_digits_ends(n: nat)
    ensures
        decimal_digits(n).len() > 0,
        all_digits(decimal_digits(n)),
        digits_value(decimal_digits(n)) == n,
        !is_white_space(decimal_digits(n)[0]),
        !is_white_space(decimal_digits(n).last()),
        decimal_digits(n)[0] != '+',
        decimal_digits(n)[0] != '-',
        decimal_digits(n).last() != '%',
        decimal_digits(n).last() != 'z',
{
    lemma_decimal_digits(n);
    let d = decimal_digits(n);
    assert(is_digit(d[0]));
    assert(is_digit(d[d.len() - 1]));
}

/// Digits followed by something that does not end in `Hz` keep it.
proof fn lemma_no_hz(d: Seq<char>)
    requires
        d.len() > 0,
        d.last() != 'z',
    ensures
        trim_end_seq(d, seq!['H', 'z']) == d,
{
    if d.len() >= 2 {
        assert(d.subrange(d.len() - 2, d.len() as int)[1] == d.last());
    }
}

/// Offsets written as `+N%`, `+NHz` or `N` read back as N, for every
/// non-negative `i32`: the forms that the defaults `+0%` and `+0Hz` take.
pub proof fn lemma_offset_forms(n: nat)
    requires
        n <= i32::MAX,
    ensures
        offset_value(seq!['+'] + decimal_digits(n) + seq!['%']) == n,
        offset_value(seq!['+'] + decimal_digits(n) + seq!['H', 'z']) == n,
        offset_value(decimal_digits(n)) == n,
{
    lemma_digits_ends(n);
    let d = decimal_digits(n);
    // `N`
    lemma_trim_noop(d);
    lemma_no_hz(d);
    assert(trim_start_char(d, '+') == d);
    assert(trim_end_char(d, '%') == d);
    assert(offset_text(d) == d);
    assert(parse_i32_spec(d) == Some(n as int));
    // `+N%`
    let a = seq!['+'] + d + seq!['%'];
    assert(a.last() == '%');
    lemma_trim_noop(a);
    assert(a.drop_first() =~= d + seq!['%']);
    assert((d + seq!['%'])[0] == d[0]);
    assert(trim_start_char(d + seq!['%'], '+') == d + seq!['%']);
    assert(trim_start_char(a, '+') == d + seq!['%']);
    assert((d + seq!['%']).drop_last() =~= d);
    assert(trim_end_char(d + seq!['%'], '%') == d);
    assert(offset_text(a) == d);
    // `+NHz`
    let h = seq!['+'] + d + seq!['H', 'z'];
    let dh = d + seq!['H', 'z'];
    assert(h.last() == 'z');
    lemma_trim_noop(h);
    assert(h.drop_first() =~= dh);
    assert(dh[0] == d[0]);
    assert(trim_start_char(dh, '+') == dh);
    assert(trim_start_char(h, '+') == dh);
    assert(dh.last() == 'z');
    assert(trim_end_char(dh, '%') == dh);
    assert(dh.subrange(dh.len() - 2, dh.len() as int) =~= seq!['H', 'z']);
    assert(dh.subrange(0, dh.len() - 2) =~= d);
    assert(trim_end_seq(dh, seq!['H', 'z']) == d);
    assert(offset_text(h) == d);
}

/// Offsets written as `-N`, `-N%` or `-NHz` read back as -N, for every
/// negative `i32`.
pub proof fn lemma_negative_offset_forms(n: nat)
    requires
        n <= 0x8000_0000,
    ensures
        offset_value(seq!['-'] + decimal_digits(n)) == -(n as int),
        offset_value(seq!['-'] + decimal_digits(n) + seq!['%']) == -(n as int),
        offset_value(seq!['-'] + decimal_digits(n) + seq!['H', 'z']) == -(n as int),
{
    lemma_digits_ends(n);
    let d = decimal_digits(n);
    let m = seq!['-'] + d;
    assert(m[0] == '-');
    assert(m.last() == d.last());
    assert(m.drop_first() =~= d);
    assert(crate::number::decimal_parse(m, true) == Some(-(n as int)));
    // `-N`
    lemma_trim_noop(m);
    assert(trim_start_char(m, '+') == m);
    assert(trim_end_char(m, '%') == m);
    lemma_no_hz(m);
    assert(offset_text(m) == m);
    // `-N%`
    let p = m + seq!['%'];
    assert(p[0] == '-');
    assert(p.last() == '%');
    lemma_trim_noop(p);
    assert(trim_start_char(p, '+') == p);
    assert(p.drop_last() =~= m);
    assert(trim_end_char(p, '%') == m);
    assert(offset_text(p) == m);
    // `-NHz`
    let b = m + seq!['H', 'z'];
    assert(b[0] == '-');
    assert(b.last() == 'z');
    lemma_trim_noop(b);
    assert(trim_start_char(b, '+') == b);
    assert(trim_end_char(b, '%') == b);
    assert(b.subrange(b.len() - 2, b.len() as int) =~= seq!['H', 'z']);
    assert(b.subrange(0, b.len() - 2) =~= m);
    assert(trim_end_seq(b, seq!['H', 'z']) == m);
    assert(offset_text(b) == m);
    assert(seq!['-'] + d + seq!['%'] =~= p);
    assert(seq!['-'] + d + seq!['H', 'z'] =~= b);
}

/// White space around an offset does not change the offset it denotes.
pub proof fn lemma_offset_ignores_white_space(a: Seq<char>, s: Seq<char>, b: Seq<char>)
    requires
        all_white_space(a),
        all_white_space(b),
    ensures
        offset_value(a + s + b) == offset_value(s),
{
    lemma_trim_ws_around(a, s, b);
}

} // verus!
