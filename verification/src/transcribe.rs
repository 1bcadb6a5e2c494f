//! Local transcription with whisper.cpp: the model and output locations, the
//! command line, and the transcript taken from whisper's JSON or its output.
use vstd::prelude::*;
use crate::error::{ToolError, runtime};
use crate::number::{decimal_digits, decimal_string};
use crate::json::{json_string_member, read_json_member};
use crate::text::{chars_of, concat, eq_str, string_of, trim, trim_range, utf8_lossy, from_utf8_lossy, views};

verus! {

/// A transcription request.
pub struct Transcribe {
    /// The audio or video file.
    pub audio: String,
    /// `zh`, `en`, `ja`, `ko` or `auto`.
    pub language: String,
    /// `tiny`, `base` or `small`.
    pub model: String,
}

/// The whisper.cpp command-line program.
pub const WHISPER_CLI: &'static str = "/home/radxa/whisper/whisper.cpp/build/bin/whisper-cli";

/// The ggml file of the model that `request` names.
pub fn model_path(request: &Transcribe) -> (r: String)
    ensures
        r@ == "/home/radxa/whisper/ggml-"@ + request.model@ + ".bin"@,
{
    let a = concat("/home/radxa/whisper/ggml-", request.model.as_str());
    concat(a.as_str(), ".bin")
}

/// The checks before a run: the program must exist, then the model file.
pub fn check_whisper_files(cli_exists: bool, model_path: &str, model_exists: bool) -> (r: Result<
    (),
    ToolError,
>)
    ensures
        !cli_exists ==> (r matches Err(e) && e.parts() == runtime(
            "whisper-cli 未找到: "@ + WHISPER_CLI@,
        )),
        cli_exists && !model_exists ==> (r matches Err(e) && e.parts() == runtime(
            "模型未找到: "@ + model_path@,
        )),
        cli_exists && model_exists ==> r is Ok,
{
    if !cli_exists {
        return Err(ToolError::Runtime(concat("whisper-cli 未找到: ", WHISPER_CLI)));
    }
    if !model_exists {
        return Err(ToolError::Runtime(concat("模型未找到: ", model_path)));
    }
    Ok(())
}

/// The prefix of whisper's output files for a run at `now_secs`.
pub fn output_prefix(now_secs: u64) -> (r: String)
    ensures
        r@ == "/tmp/lly/whisper_"@ + decimal_digits(now_secs as nat),
{
    concat("/tmp/lly/whisper_", decimal_string(now_secs).as_str())
}

/// The JSON transcript whisper writes for the output prefix `prefix`.
pub fn json_output_path(prefix: &str) -> (r: String)
    ensures
        r@ == prefix@ + ".json"@,
{
    concat(prefix, ".json")
}

/// The arguments of a whisper run for `request`: model, input, the language
/// unless it is `auto`, JSON output to `prefix`, no progress output.
pub fn whisper_args(request: &Transcribe, model_path: &str, prefix: &str) -> (r: Vec<String>)
    ensures
        ({
            let audio = request.audio@;
            let language = request.language@;
            &&& language == "auto"@ ==> views(r@) == seq!["-m"@, model_path@, "-f"@, audio, "-oj"@, "-of"@, prefix@, "-np"@]
            &&& language != "auto"@ ==> views(r@) == seq![
                "-m"@,
                model_path@,
                "-f"@,
                audio,
                "-l"@,
                language,
                "-oj"@,
                "-of"@,
                prefix@,
                "-np"@,
            ]
        }),
{
    whisper_command(model_path, request.audio.as_str(), request.language.as_str(), prefix)
}

/// The arguments of a whisper run on `audio` in `language`.
fn whisper_command(model_path: &str, audio: &str, language: &str, prefix: &str) -> (r: Vec<String>)
    ensures
        language@ == "auto"@ ==> views(r@) == seq!["-m"@, model_path@, "-f"@, audio@, "-oj"@, "-of"@, prefix@, "-np"@],
        language@ != "auto"@ ==> views(r@) == seq![
            "-m"@,
            model_path@,
            "-f"@,
            audio@,
            "-l"@,
            language@,
            "-oj"@,
            "-of"@,
            prefix@,
            "-np"@,
        ],
{
    let mut v: Vec<String> = Vec::new();
    v.push(String::from_str("-m"));
    v.push(String::from_str(model_path));
    v.push(String::from_str("-f"));
    v.push(String::from_str(audio));
    let lc = chars_of(language);
    let auto = eq_str(lc.as_slice(), "auto");
    let ghost head = views(v@);
    if !auto {
        v.push(String::from_str("-l"));
        v.push(String::from_str(language));
    }
    let ghost mid = views(v@);
    v.push(String::from_str("-oj"));
    v.push(String::from_str("-of"));
    v.push(String::from_str(prefix));
    v.push(String::from_str("-np"));
    assert(views(v@) =~= mid + seq!["-oj"@, "-of"@, prefix@, "-np"@]);
    if auto {
        assert(views(v@) =~= seq!["-m"@, model_path@, "-f"@, audio@, "-oj"@, "-of"@, prefix@, "-np"@]);
    } else {
        assert(views(v@) =~= seq![
            "-m"@,
            model_path@,
            "-f"@,
            audio@,
            "-l"@,
            language@,
            "-oj"@,
            "-of"@,
            prefix@,
            "-np"@,
        ]);
    }
    v
}

/// The member of whisper's JSON output that holds the transcript.
pub const TRANSCRIPT_MEMBER: &'static str = "text";

/// The transcript given a parsed JSON output `parsed` (see `json_string_member`):
/// its `text` member, trimmed, or empty when there is none; a parse error is a
/// run-time error.
pub fn transcript_from_json(parsed: Result<Option<String>, String>) -> (r: Result<String, ToolError>)
    ensures
        match parsed {
            Ok(Some(t)) => r matches Ok(x) && x@ == trim(t@),
            Ok(None) => r matches Ok(x) && x@ == Seq::<char>::empty(),
            Err(m) => r matches Err(e) && e.parts() == runtime("解析 whisper json: "@ + m@),
        },
{
    match parsed {
        Ok(Some(t)) => {
            let c = chars_of(t.as_str());
            assert(c@.subrange(0, c@.len() as int) =~= t@);
            let (a, b) = trim_range(c.as_slice(), 0, c.len());
            Ok(string_of(c.as_slice(), a, b))
        },
        Ok(None) => Ok(String::new()),
        Err(m) => Err(ToolError::Runtime(concat("解析 whisper json: ", m.as_str()))),
    }
}

/// The transcript of a run: from the JSON output `json` when whisper wrote
/// one, else whisper's standard output `stdout`, decoded.
pub fn transcript_text(json: &Option<Vec<u8>>, stdout: &[u8]) -> (r: Result<String, ToolError>)
    ensures
        match json {
            Some(d) => match json_string_member(d@, "text"@) {
                Ok(Some(t)) => r matches Ok(x) && x@ == trim(t),
                Ok(None) => r matches Ok(x) && x@ == Seq::<char>::empty(),
                Err(m) => r matches Err(e) && e.parts() == runtime("解析 whisper json: "@ + m),
            },
            None => r matches Ok(x) && x@ == utf8_lossy(stdout@),
        },
{
    match json {
        Some(d) => transcript_from_json(read_json_member(d.as_slice(), TRANSCRIPT_MEMBER)),
        None => Ok(from_utf8_lossy(stdout)),
    }
}

/// What a transcription run reports.
pub struct TranscriptReport {
    pub text: String,
    pub language: String,
    pub model: String,
    /// whisper's exit code, -1 when it was ended by a signal.
    pub exit_code: i32,
}

/// The report of a run for `request` that produced `text` and ended with
/// `exit_code` (none when a signal ended it).
pub fn transcript_report(request: &Transcribe, text: String, exit_code: Option<i32>) -> (r: TranscriptReport)
    ensures
        r.text == text,
        r.language@ == request.language@,
        r.model@ == request.model@,
        r.exit_code == match exit_code {
            Some(c) => c,
            None => -1i32,
        },
{
    TranscriptReport {
        text,
        language: String::from_str(request.language.as_str()),
        model: String::from_str(request.model.as_str()),
        exit_code: match exit_code {
            Some(c) => c,
            None => -1,
        },
    }
}

} // verus!
