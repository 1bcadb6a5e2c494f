//! The file tool: which paths may be read, which extensions and sizes are
//! handled, what each action does with a file, and the ffmpeg command line of
//! a conversion.
use vstd::prelude::*;
use crate::error::{ToolError, invalid_arg, runtime};
use crate::number::{decimal_digits, decimal_string, lemma_decimal_digits, is_digit};
use crate::path::{join, join_path, path_stem, stem_of, path_extension, file_name, name_extension,
    last_index_of, lemma_last_index_of, lemma_last_index_is, lemma_file_name_no_slash};
use crate::text::{starts_with, chars_of, concat, eq_str, text_lowercase, lower_case, char_alphanumeric, is_ascii_char, all_ascii, is_white_space, words, views,
    split_whitespace, utf8_lossy, from_utf8_lossy, take_chars, lemma_words_chars};

verus! {

/// What the file tool does with a file.
#[derive(Debug, Clone, Copy, PartialEq, Eq, Structural)]
pub enum Action {
    /// Size, extension and what can be read of the content.
    Info,
    /// Conversion with ffmpeg.
    Convert,
    /// The content, parsed.
    Parse,
    /// Only the safety checks.
    Safe,
}

/// A file-tool request.
pub struct FileTool {
    /// The input file.
    pub path: String,
    pub action: Action,
    /// The target format of a conversion, or the type to parse as.
    pub format: Option<String>,
    /// Extra ffmpeg arguments of a conversion.
    pub args: Option<String>,
    /// Where conversions and parsed content are written.
    pub out: String,
}

/// The largest file handled: 500 MiB.
pub const MAX_SIZE: u64 = 524288000;

/// The note of a file that passed the checks.
pub const SAFE_NOTE: &'static str = "路径在白名单、扩展名与大小均合规";

/// How many rows of each sheet a spreadsheet parse reports.
pub const EXCEL_DUMP_ROWS: usize = 50;

/// Whether `s` is the directory `root` or lies below it.
pub open spec fn under_root(s: Seq<char>, root: Seq<char>) -> bool {
    s == root || (s.len() > root.len() && s.subrange(0, root.len() as int) == root && s[root.len() as int] == '/')
}

/// Whether the canonical path `s` may be read: it is, or lies below, one of
/// `/tmp/lly`, `/home/radxa`, `/var/www`, `/tmp`.
pub open spec fn read_allowed(s: Seq<char>) -> bool {
    ||| under_root(s, "/tmp/lly"@)
    ||| under_root(s, "/home/radxa"@)
    ||| under_root(s, "/var/www"@)
    ||| under_root(s, "/tmp"@)
}

/// The audio and video extensions.
pub open spec fn media_ext(e: Seq<char>) -> bool {
    ||| e == "mp3"@ ||| e == "wav"@ ||| e == "flac"@ ||| e == "aac"@
    ||| e == "m4a"@ ||| e == "ogg"@ ||| e == "opus"@ ||| e == "mp4"@
    ||| e == "mkv"@ ||| e == "webm"@ ||| e == "avi"@ ||| e == "mov"@
}

/// The extensions of files the tool handles.
pub open spec fn allowed_ext(e: Seq<char>) -> bool {
    ||| media_ext(e)
    ||| e == "jpg"@ ||| e == "jpeg"@ ||| e == "png"@ ||| e == "webp"@
    ||| e == "gif"@ ||| e == "bmp"@ ||| e == "xlsx"@ ||| e == "xls"@
    ||| e == "toml"@ ||| e == "json"@ ||| e == "yaml"@ ||| e == "yml"@
    ||| e == "md"@ ||| e == "txt"@ ||| e == "csv"@ ||| e == "pdf"@
    ||| e == "zip"@ ||| e == "gz"@ ||| e == "srt"@ ||| e == "vtt"@
}

/// The formats a conversion may produce.
pub open spec fn convert_format(e: Seq<char>) -> bool {
    ||| media_ext(e)
    ||| e == "jpg"@ ||| e == "png"@ ||| e == "webp"@ ||| e == "gif"@
}

/// The spreadsheet extensions.
pub open spec fn excel_ext(e: Seq<char>) -> bool {
    e == "xlsx"@ || e == "xls"@
}

fn is_under_root(s: &[char], root: &str) -> (r: bool)
    ensures
        r == under_root(s@, root@),
{
    let rc = chars_of(root);
    let n = rc.len();
    if crate::text::range_eq(s, 0, s.len(), rc.as_slice()) {
        assert(s@.subrange(0, s@.len() as int) =~= s@);
        return true;
    }
    assert(s@.subrange(0, s@.len() as int) =~= s@);
    s.len() > n && crate::text::range_eq(s, 0, n, rc.as_slice()) && s[n] == '/'
}

fn is_media_ext(e: &[char]) -> (r: bool)
    ensures
        r == media_ext(e@),
{
    eq_str(e, "mp3") || eq_str(e, "wav") || eq_str(e, "flac") || eq_str(e, "aac") || eq_str(e, "m4a")
        || eq_str(e, "ogg") || eq_str(e, "opus") || eq_str(e, "mp4") || eq_str(e, "mkv") || eq_str(
        e,
        "webm",
    ) || eq_str(e, "avi") || eq_str(e, "mov")
}

fn is_allowed_ext(e: &[char]) -> (r: bool)
    ensures
        r == allowed_ext(e@),
{
    is_media_ext(e) || eq_str(e, "jpg") || eq_str(e, "jpeg") || eq_str(e, "png") || eq_str(e, "webp")
        || eq_str(e, "gif") || eq_str(e, "bmp") || eq_str(e, "xlsx") || eq_str(e, "xls") || eq_str(
        e,
        "toml",
    ) || eq_str(e, "json") || eq_str(e, "yaml") || eq_str(e, "yml") || eq_str(e, "md") || eq_str(
        e,
        "txt",
    ) || eq_str(e, "csv") || eq_str(e, "pdf") || eq_str(e, "zip") || eq_str(e, "gz") || eq_str(
        e,
        "srt",
    ) || eq_str(e, "vtt")
}

fn is_convert_format(e: &[char]) -> (r: bool)
    ensures
        r == convert_format(e@),
{
    is_media_ext(e) || eq_str(e, "jpg") || eq_str(e, "png") || eq_str(e, "webp") || eq_str(e, "gif")
}

/// The location and extension checks of a file about to be read: `canonical`
/// is its canonical path and `ext` its lower-cased extension (see
/// `lowercase_extension`). The path must lie in a readable directory, then the
/// extension must be one the tool handles.
pub fn check_read_path(canonical: &str, ext: &str) -> (r: Result<(), ToolError>)
    ensures
        !read_allowed(canonical@) ==> (r matches Err(e) && e.parts() == invalid_arg(
            "路径不在白名单: "@ + canonical@,
        )),
        read_allowed(canonical@) && !allowed_ext(ext@) ==> (r matches Err(e) && e.parts()
            == invalid_arg("不支持的扩展名: ."@ + ext@)),
        read_allowed(canonical@) && allowed_ext(ext@) ==> r is Ok,
{
    let c = chars_of(canonical);
    let cs = c.as_slice();
    let ok = is_under_root(cs, "/tmp/lly") || is_under_root(cs, "/home/radxa") || is_under_root(
        cs,
        "/var/www",
    ) || is_under_root(cs, "/tmp");
    if !ok {
        return Err(ToolError::InvalidArg(concat("路径不在白名单: ", canonical)));
    }
    let ec = chars_of(ext);
    if !is_allowed_ext(ec.as_slice()) {
        return Err(ToolError::InvalidArg(concat("不支持的扩展名: .", ext)));
    }
    Ok(())
}

/// The size check of a file about to be read: at most `MAX_SIZE` bytes.
pub fn check_size(size: u64) -> (r: Result<(), ToolError>)
    ensures
        size > MAX_SIZE ==> (r matches Err(e) && e.parts() == invalid_arg(
            "文件过大 "@ + decimal_digits(size as nat) + " > 524288000"@,
        )),
        size <= MAX_SIZE ==> r is Ok,
{
    if size > MAX_SIZE {
        let head = concat("文件过大 ", decimal_string(size).as_str());
        return Err(ToolError::InvalidArg(concat(head.as_str(), " > 524288000")));
    }
    Ok(())
}

/// The size limit is 500 MiB: a file passes the size check exactly when it
/// holds at most 500 * 1024 * 1024 bytes.
pub proof fn lemma_size_limit(size: u64)
    ensures
        size <= MAX_SIZE <==> size <= 500 * 1024 * 1024,
{
}

/// The punctuation allowed in extra ffmpeg arguments: space and `-_=.,:/%()[]+#`.
pub open spec fn ffmpeg_punct(c: char) -> bool {
    ||| c == ' ' ||| c == '-' ||| c == '_' ||| c == '=' ||| c == '.'
    ||| c == ',' ||| c == ':' ||| c == '/' ||| c == '%' ||| c == '('
    ||| c == ')' ||| c == '[' ||| c == ']' ||| c == '+' ||| c == '#'
}

/// A character allowed in extra ffmpeg arguments: a letter or number
/// (`char::is_alphanumeric`, see `char_alphanumeric`), or `ffmpeg_punct`.
pub open spec fn ffmpeg_char(c: char) -> bool {
    char_alphanumeric(c) || ffmpeg_punct(c)
}

/// Whether extra ffmpeg arguments hold only allowed characters.
pub open spec fn ffmpeg_args_ok(s: Seq<char>) -> bool {
    forall|i: int| 0 <= i < s.len() ==> ffmpeg_char(#[trigger] s[i])
}

/// The character check of extra ffmpeg arguments, which keeps shell syntax out
/// of the command line.
pub fn check_ffmpeg_args(s: &str) -> (r: Result<(), ToolError>)
    ensures
        ffmpeg_args_ok(s@) <==> r is Ok,
        r matches Err(e) ==> e.parts() == invalid_arg(
            "ffmpeg 参数含非法字符（仅允许字母数字与 -_=.,:/%()[]+# 空格）"@,
        ),
{
    let c = chars_of(s);
    let mut i: usize = 0;
    while i < c.len()
        invariant
            c@ == s@,
            0 <= i <= c@.len(),
            forall|k: int| 0 <= k < i ==> ffmpeg_char(#[trigger] c@[k]),
        decreases c@.len() - i,
    {
        let ch = c[i];
        let punct = ch == ' ' || ch == '-' || ch == '_' || ch == '=' || ch == '.' || ch == ','
            || ch == ':' || ch == '/' || ch == '%' || ch == '(' || ch == ')' || ch == '[' || ch
            == ']' || ch == '+' || ch == '#';
        if !(ch.is_alphanumeric() || punct) {
            return Err(
                ToolError::InvalidArg(
                    String::from_str("ffmpeg 参数含非法字符（仅允许字母数字与 -_=.,:/%()[]+# 空格）"),
                ),
            );
        }
        i = i + 1;
    }
    Ok(())
}

/// Every word of accepted ffmpeg arguments holds only allowed characters and no
/// white space: splitting them cannot produce shell syntax.
pub proof fn lemma_accepted_args_words(s: Seq<char>)
    requires
        ffmpeg_args_ok(s),
    ensures
        forall|w: int, k: int|
            0 <= w < words(s).len() && 0 <= k < words(s)[w].len() ==> ffmpeg_char(
                #[trigger] words(s)[w][k],
            ) && !is_white_space(words(s)[w][k]),
{
    let p = |c: char| ffmpeg_char(c);
    assert forall|k: int| 0 <= k < s.len() implies p(#[trigger] s[k]) by {}
    lemma_words_chars(s, p);
}

/// What the information action does with each kind of file: the twelve
/// audio and video extensions are probed with ffprobe, `xlsx` and `xls`
/// spreadsheets get their sheets listed, `toml` documents their top-level
/// keys, and any other file only its path, extension and size.
pub proof fn lemma_info_plan_kinds(ext: Seq<char>)
    ensures
        (ext == "mp3"@ || ext == "wav"@ || ext == "flac"@ || ext == "aac"@ || ext == "m4a"@ || ext == "ogg"@ || ext == "opus"@ || ext == "mp4"@ || ext == "mkv"@ || ext == "webm"@ || ext == "avi"@ || ext == "mov"@) ==> info_plan(ext) == FilePlan::ProbeMedia,
        (ext == "xlsx"@ || ext == "xls"@) ==> info_plan(ext) == FilePlan::ExcelInfo,
        ext == "toml"@ ==> info_plan(ext) == FilePlan::TomlInfo,
        !(ext == "mp3"@ || ext == "wav"@ || ext == "flac"@ || ext == "aac"@ || ext == "m4a"@ || ext == "ogg"@ || ext == "opus"@ || ext == "mp4"@ || ext == "mkv"@ || ext == "webm"@ || ext == "avi"@ || ext == "mov"@ || ext == "xlsx"@ || ext == "xls"@ || ext == "toml"@) ==> info_plan(ext) == FilePlan::PlainInfo,
{
    reveal_strlit("mp3");
    reveal_strlit("wav");
    reveal_strlit("flac");
    reveal_strlit("aac");
    reveal_strlit("m4a");
    reveal_strlit("ogg");
    reveal_strlit("opus");
    reveal_strlit("mp4");
    reveal_strlit("mkv");
    reveal_strlit("webm");
    reveal_strlit("avi");
    reveal_strlit("mov");
    reveal_strlit("jpg");
    reveal_strlit("jpeg");
    reveal_strlit("png");
    reveal_strlit("webp");
    reveal_strlit("gif");
    reveal_strlit("bmp");
    reveal_strlit("xlsx");
    reveal_strlit("xls");
    reveal_strlit("toml");
    reveal_strlit("json");
    reveal_strlit("yaml");
    reveal_strlit("yml");
    reveal_strlit("md");
    reveal_strlit("txt");
    reveal_strlit("csv");
    reveal_strlit("pdf");
    reveal_strlit("zip");
    reveal_strlit("gz");
    reveal_strlit("srt");
    reveal_strlit("vtt");
    if ext == "xlsx"@ || ext == "xls"@ || ext == "toml"@ {
        assert(ext[0] == 'x' || ext[0] == 't');
        assert(!media_ext(ext));
    }
    if ext == "toml"@ {
        assert(!excel_ext(ext));
    }
}
/// The extensions a file may have to be read are exactly the thirty-two of
/// the tool's list.
pub proof fn lemma_allowed_extensions(e: Seq<char>)
    ensures
        (e == "mp3"@ || e == "wav"@ || e == "flac"@ || e == "aac"@ || e == "m4a"@ || e == "ogg"@ || e == "opus"@ || e == "mp4"@ || e == "mkv"@ || e == "webm"@ || e == "avi"@ || e == "mov"@ || e == "jpg"@ || e == "jpeg"@ || e == "png"@ || e == "webp"@ || e == "gif"@ || e == "bmp"@ || e == "xlsx"@ || e == "xls"@ || e == "toml"@ || e == "json"@ || e == "yaml"@ || e == "yml"@ || e == "md"@ || e == "txt"@ || e == "csv"@ || e == "pdf"@ || e == "zip"@ || e == "gz"@ || e == "srt"@ || e == "vtt"@) <==> allowed_ext(e),
{
    reveal_strlit("mp3");
    reveal_strlit("wav");
    reveal_strlit("flac");
    reveal_strlit("aac");
    reveal_strlit("m4a");
    reveal_strlit("ogg");
    reveal_strlit("opus");
    reveal_strlit("mp4");
    reveal_strlit("mkv");
    reveal_strlit("webm");
    reveal_strlit("avi");
    reveal_strlit("mov");
    reveal_strlit("jpg");
    reveal_strlit("jpeg");
    reveal_strlit("png");
    reveal_strlit("webp");
    reveal_strlit("gif");
    reveal_strlit("bmp");
    reveal_strlit("xlsx");
    reveal_strlit("xls");
    reveal_strlit("toml");
    reveal_strlit("json");
    reveal_strlit("yaml");
    reveal_strlit("yml");
    reveal_strlit("md");
    reveal_strlit("txt");
    reveal_strlit("csv");
    reveal_strlit("pdf");
    reveal_strlit("zip");
    reveal_strlit("gz");
    reveal_strlit("srt");
    reveal_strlit("vtt");
}

/// A conversion may produce exactly the sixteen formats of the tool's list:
/// the twelve audio and video formats and `jpg`, `png`, `webp`, `gif`.
pub proof fn lemma_convert_formats(f: Seq<char>)
    ensures
        (f == "mp3"@ || f == "wav"@ || f == "flac"@ || f == "aac"@ || f == "m4a"@ || f == "ogg"@ || f == "opus"@ || f == "mp4"@ || f == "mkv"@ || f == "webm"@ || f == "avi"@ || f == "mov"@ || f == "jpg"@ || f == "png"@ || f == "webp"@ || f == "gif"@) <==> convert_format(f),
{
    reveal_strlit("mp3");
    reveal_strlit("wav");
    reveal_strlit("flac");
    reveal_strlit("aac");
    reveal_strlit("m4a");
    reveal_strlit("ogg");
    reveal_strlit("opus");
    reveal_strlit("mp4");
    reveal_strlit("mkv");
    reveal_strlit("webm");
    reveal_strlit("avi");
    reveal_strlit("mov");
    reveal_strlit("jpg");
    reveal_strlit("png");
    reveal_strlit("webp");
    reveal_strlit("gif");
    reveal_strlit("xlsx");
    reveal_strlit("xls");
    reveal_strlit("toml");
    reveal_strlit("json");
}

/// What the parse action does with each format: `xlsx` and `xls` dump the
/// sheets, `toml` and `json` parse the document, and any other format is
/// refused.
pub proof fn lemma_parse_plan_kinds(f: Seq<char>)
    ensures
        (f == "xlsx"@ || f == "xls"@) ==> parse_format(f) && parse_plan(f) == FilePlan::ParseExcel,
        f == "toml"@ ==> parse_format(f) && parse_plan(f) == FilePlan::ParseToml,
        f == "json"@ ==> parse_format(f) && parse_plan(f) == FilePlan::ParseJson,
        !(f == "xlsx"@ || f == "xls"@ || f == "toml"@ || f == "json"@) ==> !parse_format(f),
{
    reveal_strlit("mp3");
    reveal_strlit("wav");
    reveal_strlit("flac");
    reveal_strlit("aac");
    reveal_strlit("m4a");
    reveal_strlit("ogg");
    reveal_strlit("opus");
    reveal_strlit("mp4");
    reveal_strlit("mkv");
    reveal_strlit("webm");
    reveal_strlit("avi");
    reveal_strlit("mov");
    reveal_strlit("jpg");
    reveal_strlit("png");
    reveal_strlit("webp");
    reveal_strlit("gif");
    reveal_strlit("xlsx");
    reveal_strlit("xls");
    reveal_strlit("toml");
    reveal_strlit("json");
    if f == "toml"@ || f == "json"@ {
        assert(f[0] == 't' || f[0] == 'j');
        assert(!excel_ext(f));
    }
    if f == "json"@ {
        assert(f != "toml"@);
    }
}

/// The readable paths are `/tmp`, `/home/radxa` and `/var/www` and what lies
/// below them (`/tmp/lly` lies below `/tmp`).
pub proof fn lemma_read_roots(s: Seq<char>)
    ensures
        read_allowed(s) <==> (s == "/tmp"@ || starts_with(s, "/tmp/"@) || s == "/home/radxa"@
            || starts_with(s, "/home/radxa/"@) || s == "/var/www"@ || starts_with(s, "/var/www/"@)),
{
    reveal_strlit("/tmp");
    reveal_strlit("/tmp/");
    reveal_strlit("/tmp/lly");
    reveal_strlit("/home/radxa");
    reveal_strlit("/home/radxa/");
    reveal_strlit("/var/www");
    reveal_strlit("/var/www/");
    assert("/tmp/"@ =~= "/tmp"@.push('/'));
    assert("/home/radxa/"@ =~= "/home/radxa"@.push('/'));
    assert("/var/www/"@ =~= "/var/www"@.push('/'));
    lemma_under_root_prefix(s, "/tmp"@, "/tmp/"@);
    lemma_under_root_prefix(s, "/home/radxa"@, "/home/radxa/"@);
    lemma_under_root_prefix(s, "/var/www"@, "/var/www/"@);
    if under_root(s, "/tmp/lly"@) {
        let p8 = s.subrange(0, 8);
        assert(p8 =~= "/tmp/lly"@);
        assert(s.subrange(0, 5) =~= p8.subrange(0, 5));
        assert(p8.subrange(0, 5) =~= "/tmp/"@);
        assert(starts_with(s, "/tmp/"@));
    }
}

/// Lying under `root` is being `root` or starting with `root` followed by `/`.
proof fn lemma_under_root_prefix(s: Seq<char>, root: Seq<char>, slashed: Seq<char>)
    requires
        slashed == root.push('/'),
    ensures
        under_root(s, root) <==> (s == root || starts_with(s, slashed)),
{
    if s.len() > root.len() && s.subrange(0, root.len() as int) == root && s[root.len() as int] == '/' {
        assert(s.subrange(0, slashed.len() as int) =~= slashed);
    }
    if s != root && starts_with(s, slashed) {
        let pre = s.subrange(0, slashed.len() as int);
        assert(pre == slashed);
        assert(s.len() > root.len());
        assert(s.subrange(0, root.len() as int) =~= pre.subrange(0, root.len() as int));
        assert(slashed.subrange(0, root.len() as int) =~= root);
        assert(s[root.len() as int] == pre[root.len() as int]);
        assert(slashed[root.len() as int] == '/');
    }
}

/// Extra ffmpeg arguments in ASCII are accepted exactly when every character
/// is a letter, a digit, a space or one of `-_=.,:/%()[]+#`.
pub proof fn lemma_ffmpeg_ascii_chars(s: Seq<char>)
    requires
        all_ascii(s),
    ensures
        ffmpeg_args_ok(s) <==> (forall|i: int|
            0 <= i < s.len() ==> {
                let u = #[trigger] s[i] as u32;
                ||| 48 <= u <= 57
                ||| 65 <= u <= 90
                ||| 97 <= u <= 122
                ||| s[i] == ' ' ||| s[i] == '-' ||| s[i] == '_' ||| s[i] == '=' ||| s[i] == '.'
                ||| s[i] == ',' ||| s[i] == ':' ||| s[i] == '/' ||| s[i] == '%' ||| s[i] == '('
                ||| s[i] == ')' ||| s[i] == '[' ||| s[i] == ']' ||| s[i] == '+' ||| s[i] == '#'
            }),
{
    assert forall|i: int| 0 <= i < s.len() implies is_ascii_char(#[trigger] s[i]) by {}
}

/// Shell syntax in extra ffmpeg arguments is refused: a `;`, `|`, `&`, `$`,
/// backquote, `<`, `>`, quote, backslash, `*`, `?`, `!`, `{`, `}`, `~`, tab or
/// line break anywhere makes them fail the check.
pub proof fn lemma_shell_syntax_refused(s: Seq<char>, i: int)
    requires
        0 <= i < s.len(),
        s[i] == ';' || s[i] == '|' || s[i] == '&' || s[i] == '$' || s[i] == '`' || s[i] == '<'
            || s[i] == '>' || s[i] == '\'' || s[i] == '"' || s[i] == '\\' || s[i] == '*' || s[i]
            == '?' || s[i] == '!' || s[i] == '{' || s[i] == '}' || s[i] == '~' || s[i] == '\t'
            || s[i] == '\n' || s[i] == '\r',
    ensures
        !ffmpeg_args_ok(s),
{
    assert(!ffmpeg_char(s[i]));
}

/// The step a file-tool request takes once its file has passed the checks.
#[derive(Debug, PartialEq, Eq)]
pub enum FilePlan {
    /// Report that the file passed the checks.
    Safe,
    /// Report the file with the metadata ffprobe gives.
    ProbeMedia,
    /// Report the file with its sheet names and sizes.
    ExcelInfo,
    /// Report the file with its top-level toml keys.
    TomlInfo,
    /// Report path, extension and size only.
    PlainInfo,
    /// Report the first rows of each sheet.
    ParseExcel,
    /// Report the parsed toml document.
    ParseToml,
    /// Report the parsed json document.
    ParseJson,
    /// Convert with ffmpeg to the given (lower-cased) format.
    Convert(String),
}

/// The information step for a file with lower-cased extension `ext`.
pub open spec fn info_plan(ext: Seq<char>) -> FilePlan {
    if media_ext(ext) {
        FilePlan::ProbeMedia
    } else if excel_ext(ext) {
        FilePlan::ExcelInfo
    } else if ext == "toml"@ {
        FilePlan::TomlInfo
    } else {
        FilePlan::PlainInfo
    }
}

/// The kinds of content that can be parsed.
pub open spec fn parse_format(f: Seq<char>) -> bool {
    excel_ext(f) || f == "toml"@ || f == "json"@
}

/// The parse step for the lower-cased format `f`, which `parse_format` accepts.
pub open spec fn parse_plan(f: Seq<char>) -> FilePlan {
    if excel_ext(f) {
        FilePlan::ParseExcel
    } else if f == "toml"@ {
        FilePlan::ParseToml
    } else {
        FilePlan::ParseJson
    }
}

/// What the request `tool` (its action and format) does with a file whose
/// lower-cased extension is `ext`. A parse goes by the lower-cased format, else by the
/// extension; a conversion needs a format among `convert_format`.
pub fn plan_file_action(tool: &FileTool, ext: &str) -> (r: Result<FilePlan, ToolError>)
    ensures
        ({
            let action = tool.action;
            let format = tool.format;
            plan_spec_holds(action, ext@, format, r)
        }),
{
    plan_action(tool.action, ext, &tool.format)
}

/// Whether `r` is what `plan_file_action` gives for `action`, `ext` and `format`.
pub open spec fn plan_spec_holds(action: Action, ext: Seq<char>, format: Option<String>, r: Result<FilePlan, ToolError>) -> bool {
    &&& action == Action::Safe ==> r == Ok::<FilePlan, ToolError>(FilePlan::Safe)
    &&& action == Action::Info ==> r == Ok::<FilePlan, ToolError>(info_plan(ext))
    &&& action == Action::Parse ==> ({
            let f = text_lowercase(
                match format {
                    Some(x) => x@,
                    None => ext,
                },
            );
            &&& parse_format(f) ==> r == Ok::<FilePlan, ToolError>(parse_plan(f))
            &&& !parse_format(f) ==> (r matches Err(e) && e.parts() == invalid_arg(
                "parse 仅支持 xlsx/toml/json，收到 "@ + f,
            ))
        })
    &&& action == Action::Convert ==> match format {
            None => r matches Err(e) && e.parts() == invalid_arg("convert 需要 --format"@),
            Some(x) => {
                let f = text_lowercase(x@);
                &&& convert_format(f) ==> (r matches Ok(FilePlan::Convert(g)) && g@ == f)
                &&& !convert_format(f) ==> (r matches Err(e) && e.parts() == invalid_arg(
                    "不支持的输出格式: "@ + f,
                ))
            },
        }
}

/// `plan_file_action` on the action and format themselves.
fn plan_action(action: Action, ext: &str, format: &Option<String>) -> (r: Result<
    FilePlan,
    ToolError,
>)
    ensures
        action == Action::Safe ==> r == Ok::<FilePlan, ToolError>(FilePlan::Safe),
        action == Action::Info ==> r == Ok::<FilePlan, ToolError>(info_plan(ext@)),
        action == Action::Parse ==> ({
            let f = text_lowercase(
                match format {
                    Some(x) => x@,
                    None => ext@,
                },
            );
            &&& parse_format(f) ==> r == Ok::<FilePlan, ToolError>(parse_plan(f))
            &&& !parse_format(f) ==> (r matches Err(e) && e.parts() == invalid_arg(
                "parse 仅支持 xlsx/toml/json，收到 "@ + f,
            ))
        }),
        action == Action::Convert ==> match format {
            None => r matches Err(e) && e.parts() == invalid_arg("convert 需要 --format"@),
            Some(x) => {
                let f = text_lowercase(x@);
                &&& convert_format(f) ==> (r matches Ok(FilePlan::Convert(g)) && g@ == f)
                &&& !convert_format(f) ==> (r matches Err(e) && e.parts() == invalid_arg(
                    "不支持的输出格式: "@ + f,
                ))
            },
        },
{
    match action {
        Action::Safe => Ok(FilePlan::Safe),
        Action::Info => {
            let ec = chars_of(ext);
            let e = ec.as_slice();
            if is_media_ext(e) {
                Ok(FilePlan::ProbeMedia)
            } else if eq_str(e, "xlsx") || eq_str(e, "xls") {
                Ok(FilePlan::ExcelInfo)
            } else if eq_str(e, "toml") {
                Ok(FilePlan::TomlInfo)
            } else {
                Ok(FilePlan::PlainInfo)
            }
        },
        Action::Parse => {
            let fmt = match format {
                Some(x) => lower_case(x.as_str()),
                None => lower_case(ext),
            };
            let fc = chars_of(fmt.as_str());
            let f = fc.as_slice();
            if eq_str(f, "xlsx") || eq_str(f, "xls") {
                Ok(FilePlan::ParseExcel)
            } else if eq_str(f, "toml") {
                Ok(FilePlan::ParseToml)
            } else if eq_str(f, "json") {
                Ok(FilePlan::ParseJson)
            } else {
                Err(ToolError::InvalidArg(concat("parse 仅支持 xlsx/toml/json，收到 ", fmt.as_str())))
            }
        },
        Action::Convert => {
            match format {
                None => Err(ToolError::InvalidArg(String::from_str("convert 需要 --format"))),
                Some(x) => {
                    let fmt = lower_case(x.as_str());
                    let fc = chars_of(fmt.as_str());
                    if is_convert_format(fc.as_slice()) {
                        Ok(FilePlan::Convert(fmt))
                    } else {
                        Err(ToolError::InvalidArg(concat("不支持的输出格式: ", fmt.as_str())))
                    }
                },
            }
        },
    }
}

/// The file name of a conversion of `canonical` to `fmt` made at `now_secs`:
/// `<stem>_<now_secs>.<fmt>`, with stem `out` when the input has none.
pub open spec fn convert_file_name(canonical: Seq<char>, now_secs: nat, fmt: Seq<char>) -> Seq<char> {
    let stem = match path_stem(canonical) {
        Some(s) => s,
        None => "out"@,
    };
    stem + seq!['_'] + decimal_digits(now_secs) + seq!['.'] + fmt
}

/// Where a conversion of `canonical` to `fmt` made at `now_secs` is written:
/// `convert_file_name` in the directory `out_dir`.
pub fn convert_output_path(tool: &FileTool, canonical: &str, now_secs: u64, fmt: &str) -> (r: String)
    ensures
        r@ == join_path(tool.out@, convert_file_name(canonical@, now_secs as nat, fmt@)),
{
    output_path(tool.out.as_str(), canonical, now_secs, fmt)
}

/// Where the parsed content of `canonical` is written for a request at
/// `now_secs`: `<stem>_<now_secs>.json` in the output directory `tool.out`.
pub fn parse_output_path(tool: &FileTool, canonical: &str, now_secs: u64) -> (r: String)
    ensures
        r@ == join_path(tool.out@, convert_file_name(canonical@, now_secs as nat, "json"@)),
{
    output_path(tool.out.as_str(), canonical, now_secs, "json")
}

/// The parsed content is written to a `.json` file.
pub proof fn lemma_parse_output_extension(out_dir: Seq<char>, canonical: Seq<char>, now_secs: nat)
    ensures
        path_extension(join_path(out_dir, convert_file_name(canonical, now_secs, "json"@)))
            == Some("json"@),
{
    reveal_strlit("json");
    assert forall|i: int| 0 <= i < "json"@.len() implies "json"@[i] != '.' && "json"@[i] != '/' by {}
    lemma_convert_output_extension(out_dir, canonical, now_secs, "json"@);
}

fn output_path(out_dir: &str, canonical: &str, now_secs: u64, fmt: &str) -> (r: String)
    ensures
        r@ == join_path(out_dir@, convert_file_name(canonical@, now_secs as nat, fmt@)),
{
    let stem = match stem_of(canonical) {
        Some(s) => s,
        None => String::from_str("out"),
    };
    let a = concat(stem.as_str(), "_");
    let b = concat(a.as_str(), decimal_string(now_secs).as_str());
    let c = concat(b.as_str(), ".");
    let name = concat(c.as_str(), fmt);
    proof {
        reveal_strlit("_");
        reveal_strlit(".");
    }
    join(out_dir, name.as_str())
}

/// A converted file carries the format it was converted to as its extension,
/// for any format without `.` or `/` (all of `convert_format` are such).
#[verifier::rlimit(40)]
pub proof fn lemma_convert_output_extension(
    out_dir: Seq<char>,
    canonical: Seq<char>,
    now_secs: nat,
    fmt: Seq<char>,
)
    requires
        forall|i: int| 0 <= i < fmt.len() ==> fmt[i] != '.' && fmt[i] != '/',
    ensures
        path_extension(join_path(out_dir, convert_file_name(canonical, now_secs, fmt))) == Some(
            fmt,
        ),
{
    reveal_strlit("out");
    lemma_file_name_no_slash(canonical);
    lemma_decimal_digits(now_secs);
    let stem = match path_stem(canonical) {
        Some(s) => s,
        None => "out"@,
    };
    assert forall|i: int| 0 <= i < stem.len() implies stem[i] != '/' by {
        match file_name(canonical) {
            Some(n) => {
                let k = last_index_of(n, '.');
                if k > 0 {
                    lemma_last_index_of(n, '.');
                    assert(stem[i] == n[i]);
                }
            },
            None => {},
        }
    }
    let ts = decimal_digits(now_secs);
    let name = convert_file_name(canonical, now_secs, fmt);
    let dot: int = (stem.len() + 1 + ts.len()) as int;
    assert(name[stem.len() as int] == '_');
    assert(name[dot] == '.');
    assert forall|i: int| 0 <= i < name.len() implies name[i] != '/' by {
        if i < stem.len() {
            assert(name[i] == stem[i]);
        } else if stem.len() < i < dot {
            assert(name[i] == ts[i - stem.len() - 1]);
            assert(is_digit(ts[i - stem.len() - 1]));
        } else if i > dot {
            assert(name[i] == fmt[i - dot - 1]);
        }
    }
    assert forall|i: int| dot < i < name.len() implies name[i] != '.' by {
        assert(name[i] == fmt[i - dot - 1]);
    }
    lemma_last_index_is(name, '.', dot);
    assert(name.subrange(dot + 1, name.len() as int) =~= fmt);
    assert(name_extension(name) == Some(fmt));
    let p = join_path(out_dir, name);
    // the final component of the joined path is `name`
    let start: int = p.len() - name.len();
    assert(p.subrange(start, p.len() as int) =~= name);
    assert forall|i: int| start <= i < p.len() implies p[i] != '/' by {
        assert(p[i] == name[i - start]);
    }
    if start > 0 {
        assert(p[start - 1] == '/');
    }
    lemma_last_index_is(p, '/', start - 1);
    assert(p.last() == name.last());
    assert(name.len() > 2);
    assert(name != seq!['.']);
    assert(name != seq!['.', '.']);
    assert(file_name(p) == Some(name));
}

/// A conversion that `plan_file_action` allows writes a file whose extension
/// is the planned format.
pub proof fn lemma_planned_conversion_extension(
    out_dir: Seq<char>,
    canonical: Seq<char>,
    now_secs: nat,
    fmt: Seq<char>,
)
    requires
        convert_format(fmt),
    ensures
        path_extension(join_path(out_dir, convert_file_name(canonical, now_secs, fmt))) == Some(
            fmt,
        ),
{
    reveal_strlit("mp3");
    reveal_strlit("wav");
    reveal_strlit("flac");
    reveal_strlit("aac");
    reveal_strlit("m4a");
    reveal_strlit("ogg");
    reveal_strlit("opus");
    reveal_strlit("mp4");
    reveal_strlit("mkv");
    reveal_strlit("webm");
    reveal_strlit("avi");
    reveal_strlit("mov");
    reveal_strlit("jpg");
    reveal_strlit("png");
    reveal_strlit("webp");
    reveal_strlit("gif");
    assert forall|i: int| 0 <= i < fmt.len() implies fmt[i] != '.' && fmt[i] != '/' by {}
    lemma_convert_output_extension(out_dir, canonical, now_secs, fmt);
}

/// The command line of a conversion of `input` to `output`: `-y -i <input>`,
/// the words of the extra arguments, then `<output>`; extra arguments with a
/// refused character stop it.
pub fn ffmpeg_args(tool: &FileTool, input: &str, output: &str) -> (r: Result<
    Vec<String>,
    ToolError,
>)
    ensures
        match tool.args {
            None => r matches Ok(v) && views(v@) == seq!["-y"@, "-i"@, input@, output@],
            Some(a) => if ffmpeg_args_ok(a@) {
                r matches Ok(v) && views(v@) == seq!["-y"@, "-i"@, input@] + words(a@) + seq![
                    output@,
                ]
            } else {
                r matches Err(e) && e.parts() == invalid_arg(
                    "ffmpeg 参数含非法字符（仅允许字母数字与 -_=.,:/%()[]+# 空格）"@,
                )
            },
        },
{
    let extra = &tool.args;
    let mut v: Vec<String> = Vec::new();
    v.push(String::from_str("-y"));
    v.push(String::from_str("-i"));
    v.push(String::from_str(input));
    let ghost head = seq!["-y"@, "-i"@, input@];
    assert(views(v@) =~= head);
    match extra {
        None => {},
        Some(a) => {
            match check_ffmpeg_args(a.as_str()) {
                Err(e) => {
                    return Err(e);
                },
                Ok(()) => {},
            }
            let mut ws = split_whitespace(a.as_str());
            let ghost w = views(ws@);
            v.append(&mut ws);
            assert(views(v@) =~= head + w);
        },
    }
    let ghost before = views(v@);
    v.push(String::from_str(output));
    assert(views(v@) =~= before + seq![output@]);
    Ok(v)
}

/// The error of a failed conversion: ffmpeg's standard error, decoded, first
/// 500 characters.
pub fn ffmpeg_failure(stderr: &[u8]) -> (r: ToolError)
    ensures
        r.parts() == runtime(
            "ffmpeg 失败: "@ + utf8_lossy(stderr@).take(
                if 500 <= utf8_lossy(stderr@).len() {
                    500
                } else {
                    utf8_lossy(stderr@).len() as int
                },
            ),
        ),
{
    let text = from_utf8_lossy(stderr);
    let head = take_chars(text.as_str(), 500);
    ToolError::Runtime(concat("ffmpeg 失败: ", head.as_str()))
}

/// The error of a failed probe: ffprobe's standard error, decoded.
pub fn ffprobe_failure(stderr: &[u8]) -> (r: ToolError)
    ensures
        r.parts() == runtime("ffprobe 失败: "@ + utf8_lossy(stderr@)),
{
    let text = from_utf8_lossy(stderr);
    ToolError::Runtime(concat("ffprobe 失败: ", text.as_str()))
}

/// `toml::Value`, carried through the library as an opaque value.
#[verifier::external_type_specification]
#[verifier::external_body]
pub struct ExTomlValue(toml::Value);

/// What the toml crate gives for a text read as a document
/// (`str::parse::<toml::Value>`): the value, or the error's message.
pub uninterp spec fn toml_parse(text: Seq<char>) -> Result<toml::Value, Seq<char>>;

/// `text.parse::<toml::Value>()`, the error turned into its message. Its
/// result depends on the text alone and is named `toml_parse`; what the value
/// holds is not stated.
#[verifier::external_body]
fn parse_toml_value(text: &str) -> (r: Result<toml::Value, String>)
    ensures
        match r {
            Ok(v) => toml_parse(text@) == Ok::<toml::Value, Seq<char>>(v),
            Err(m) => toml_parse(text@) == Err::<toml::Value, Seq<char>>(m@),
        },
{
    text.parse::<toml::Value>().map_err(|e| e.to_string())
}

/// The content of a toml file to be parsed; a text that is no toml document
/// is a run-time error.
pub fn parse_toml_document(text: &str) -> (r: Result<toml::Value, ToolError>)
    ensures
        match toml_parse(text@) {
            Ok(v) => r == Ok::<toml::Value, ToolError>(v),
            Err(m) => r matches Err(e) && e.parts() == runtime("toml 解析失败: "@ + m),
        },
{
    match parse_toml_value(text) {
        Ok(v) => Ok(v),
        Err(m) => Err(ToolError::Runtime(concat("toml 解析失败: ", m.as_str()))),
    }
}

/// What the toml crate makes of a document: the keys of its top-level table
/// in the order the table holds them (none when the value is not a table), or
/// the parse error's message.
pub uninterp spec fn toml_top_keys(text: Seq<char>) -> Result<Option<Seq<Seq<char>>>, Seq<char>>;

/// `text.parse::<toml::Value>()`, then the keys of the value read as a table
/// (`value.as_table()`); a parse error is turned into its message. The
/// contract names the result `toml_top_keys` of the text; of the keys it
/// states only that they are distinct (the table is a `BTreeMap`).
#[verifier::external_body]
fn read_toml_keys(text: &str) -> (r: Result<Option<Vec<String>>, String>)
    ensures
        match r {
            Ok(Some(k)) => toml_top_keys(text@) == Ok::<Option<Seq<Seq<char>>>, Seq<char>>(
                Some(views(k@)),
            ) && views(k@).no_duplicates(),
            Ok(None) => toml_top_keys(text@) == Ok::<Option<Seq<Seq<char>>>, Seq<char>>(None),
            Err(m) => toml_top_keys(text@) == Err::<Option<Seq<Seq<char>>>, Seq<char>>(m@),
        },
{
    match text.parse::<toml::Value>() {
        Ok(v) => Ok(v.as_table().map(|t| t.keys().cloned().collect())),
        Err(e) => Err(e.to_string()),
    }
}

/// The top level of a toml document: its keys and how many there are.
pub struct TomlSummary {
    /// The number of top-level entries.
    pub tables: usize,
    /// Their keys.
    pub keys: Vec<String>,
}

/// The summary given a parse result `parsed` (see `toml_top_keys`): the keys
/// and their count, nothing when the value is not a table; a parse error is a
/// run-time error.
pub fn toml_summary(parsed: Result<Option<Vec<String>>, String>) -> (r: Result<TomlSummary, ToolError>)
    ensures
        match parsed {
            Ok(Some(k)) => r matches Ok(s) && views(s.keys@) == views(k@) && s.tables == k@.len(),
            Ok(None) => r matches Ok(s) && s.keys@.len() == 0 && s.tables == 0,
            Err(m) => r matches Err(e) && e.parts() == runtime("toml 解析失败: "@ + m@),
        },
{
    match parsed {
        Ok(Some(k)) => {
            let n = k.len();
            Ok(TomlSummary { tables: n, keys: k })
        },
        Ok(None) => Ok(TomlSummary { tables: 0, keys: Vec::new() }),
        Err(m) => Err(ToolError::Runtime(concat("toml 解析失败: ", m.as_str()))),
    }
}

/// The top level of the toml document `text`.
pub fn toml_info(text: &str) -> (r: Result<TomlSummary, ToolError>)
    ensures
        match toml_top_keys(text@) {
            Ok(Some(k)) => r matches Ok(s) && views(s.keys@) == k && s.tables == k.len()
                && k.no_duplicates(),
            Ok(None) => r matches Ok(s) && s.keys@.len() == 0 && s.tables == 0,
            Err(m) => r matches Err(e) && e.parts() == runtime("toml 解析失败: "@ + m),
        },
{
    let parsed = read_toml_keys(text);
    toml_summary(parsed)
}

/// What a conversion reports.
pub struct ConvertReport {
    pub output: String,
    /// The size of the output, 0 when it cannot be read.
    pub size: u64,
}

/// The report of a conversion to `output`, whose size is `size` when known.
pub fn convert_report(output: String, size: Option<u64>) -> (r: ConvertReport)
    ensures
        r.output == output,
        r.size == match size {
            Some(n) => n,
            None => 0u64,
        },
{
    ConvertReport {
        output,
        size: match size {
            Some(n) => n,
            None => 0,
        },
    }
}

/// What an information request reports of a media file's probe.
pub enum MediaField {
    /// The metadata ffprobe gave.
    Media(serde_json::Value),
    /// The probe failed; the information is reported with this error rather
    /// than failing the request.
    MediaError(ToolError),
}

/// The media field of an information report given the outcome of the probe:
/// a failed probe is reported, never an error of the request.
pub fn media_field(probe: Result<serde_json::Value, ToolError>) -> (r: MediaField)
    ensures
        match probe {
            Ok(v) => r == MediaField::Media(v),
            Err(e) => r == MediaField::MediaError(e),
        },
{
    match probe {
        Ok(v) => MediaField::Media(v),
        Err(e) => MediaField::MediaError(e),
    }
}

} // verus!
