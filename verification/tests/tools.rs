use lly::error::ToolError;
use lly::files::{
    check_ffmpeg_args, check_read_path, check_size, convert_output_path, convert_report, ffmpeg_args,
    ffmpeg_failure, ffprobe_failure, parse_output_path, parse_toml_document, plan_file_action, toml_info,
    Action, FilePlan, FileTool, MAX_SIZE, SAFE_NOTE,
};
use lly::json::{parse_json_document, parse_probe_output};
use lly::path::{extension_of, file_name_of, join, lowercase_extension, stem_of};
use lly::speech::{check_audio, parse_offset, speech_settings, tts_failure, tts_output_path, tts_report, EdgeTTS};
use lly::transcribe::{
    check_whisper_files, json_output_path, model_path, output_prefix, transcript_report, transcript_text,
    whisper_args, Transcribe, WHISPER_CLI,
};

fn tool(action: Action, format: Option<&str>, args: Option<&str>, out: &str) -> FileTool {
    FileTool {
        path: String::new(),
        action,
        format: format.map(|s| s.to_string()),
        args: args.map(|s| s.to_string()),
        out: out.to_string(),
    }
}

fn tts(output: Option<&str>) -> EdgeTTS {
    EdgeTTS {
        text: "你好".into(),
        voice: "zh-CN-XiaoxiaoNeural".into(),
        rate: "+0%".into(),
        pitch: "+0Hz".into(),
        output: output.map(|s| s.to_string()),
    }
}

fn transcribe(language: &str) -> Transcribe {
    Transcribe { audio: "a.mp3".into(), language: language.into(), model: "base".into() }
}
use lly::files::{media_field, MediaField};
use std::path::Path;

fn invalid(r: Result<(), ToolError>) -> String {
    match r {
        Err(ToolError::InvalidArg(m)) => m,
        other => panic!("expected an argument error, got {:?}", other),
    }
}

#[test]
fn parse_offset_documented_forms() {
    assert_eq!(parse_offset("+10%"), 10);
    assert_eq!(parse_offset("-5Hz"), -5);
    assert_eq!(parse_offset("10"), 10);
    assert_eq!(parse_offset("+0%"), 0);
    assert_eq!(parse_offset("+0Hz"), 0);
    assert_eq!(parse_offset("-10%"), -10);
    assert_eq!(parse_offset("+7Hz"), 7);
    assert_eq!(parse_offset("-7"), -7);
    assert_eq!(parse_offset("-7%"), -7);
    assert_eq!(parse_offset("-2147483648%"), -2147483648);
    assert_eq!(parse_offset("\t +3%\n\u{3000}"), parse_offset("+3%"));
}

#[test]
fn parse_offset_invalid_falls_back_to_zero() {
    assert_eq!(parse_offset("abc"), 0);
    assert_eq!(parse_offset(""), 0);
    assert_eq!(parse_offset("+"), 0);
    assert_eq!(parse_offset("-"), 0);
    assert_eq!(parse_offset("%"), 0);
    assert_eq!(parse_offset("10 %"), 10);
    assert_eq!(parse_offset("1.5%"), 0);
    assert_eq!(parse_offset("99999999999%"), 0);
    assert_eq!(parse_offset("2147483647"), 2147483647);
    assert_eq!(parse_offset("-2147483648Hz"), -2147483648);
    assert_eq!(parse_offset("2147483648"), 0);
}

#[test]
fn parse_offset_edges() {
    assert_eq!(parse_offset("  +7%  "), 7);
    assert_eq!(parse_offset("++5%"), 5);
    assert_eq!(parse_offset("5%%"), 5);
    assert_eq!(parse_offset("5HzHz"), 5);
    assert_eq!(parse_offset("5Hz%"), 5);
    assert_eq!(parse_offset("5%Hz"), 0);
    assert_eq!(parse_offset("\u{3000}12\u{3000}"), 12);
    assert_eq!(parse_offset("+-3"), -3);
    assert_eq!(parse_offset("-+3"), 0);
    assert_eq!(parse_offset("0012"), 12);
}

#[test]
fn speech_settings_fields() {
    let s = speech_settings("zh-CN-XiaoxiaoNeural", "+10%", "-5Hz");
    assert_eq!(s.voice_name, "zh-CN-XiaoxiaoNeural");
    assert_eq!(s.audio_format, "audio-24khz-48kbitrate-mono-mp3");
    assert_eq!(s.rate, 10);
    assert_eq!(s.pitch, -5);
    assert_eq!(s.volume, 0);
}

#[test]
fn check_audio_refuses_empty() {
    assert_eq!(check_audio(vec![]), Err("empty audio (voice name 可能无效)".to_string()));
    assert_eq!(check_audio(vec![1, 2, 3]), Ok(vec![1, 2, 3]));
}

#[test]
fn tts_failure_message() {
    match tts_failure("connect: refused") {
        ToolError::Runtime(m) => assert_eq!(m, "edge-tts: connect: refused"),
        other => panic!("{:?}", other),
    }
}

#[test]
fn tts_output_path_default_and_given() {
    assert_eq!(tts_output_path(&tts(None), 1700000000), "/tmp/lly/tts_1700000000.mp3");
    assert_eq!(tts_output_path(&tts(None), 0), "/tmp/lly/tts_0.mp3");
    assert_eq!(tts_output_path(&tts(Some("out.mp3")), 5), "out.mp3");
}

#[test]
fn tts_report_estimate() {
    let r = tts_report("a.mp3".to_string(), 12000, &tts(None));
    assert_eq!(r.estimate_seconds, 2);
    assert_eq!(r.bytes, 12000);
    assert_eq!(r.path, "a.mp3");
    assert_eq!(r.voice, "zh-CN-XiaoxiaoNeural");
    assert_eq!(tts_report(String::new(), 5999, &tts(None)).estimate_seconds, 0);
    assert_eq!(tts_report(String::new(), 6000, &tts(None)).estimate_seconds, 1);
}

#[test]
fn whisper_locations() {
    assert_eq!(model_path(&transcribe("zh")), "/home/radxa/whisper/ggml-base.bin");
    assert_eq!(output_prefix(42), "/tmp/lly/whisper_42");
    assert_eq!(json_output_path("/tmp/lly/whisper_42"), "/tmp/lly/whisper_42.json");
}

#[test]
fn whisper_preflight() {
    match check_whisper_files(false, "m", true) {
        Err(ToolError::Runtime(m)) => assert_eq!(m, format!("whisper-cli 未找到: {WHISPER_CLI}")),
        other => panic!("{:?}", other),
    }
    match check_whisper_files(true, "/x/ggml-base.bin", false) {
        Err(ToolError::Runtime(m)) => assert_eq!(m, "模型未找到: /x/ggml-base.bin"),
        other => panic!("{:?}", other),
    }
    assert!(check_whisper_files(true, "m", true).is_ok());
}

#[test]
fn whisper_args_language() {
    let auto = whisper_args(&transcribe("auto"), "m.bin", "/tmp/p");
    assert_eq!(auto, vec!["-m", "m.bin", "-f", "a.mp3", "-oj", "-of", "/tmp/p", "-np"]);
    let zh = whisper_args(&transcribe("zh"), "m.bin", "/tmp/p");
    assert_eq!(zh, vec!["-m", "m.bin", "-f", "a.mp3", "-l", "zh", "-oj", "-of", "/tmp/p", "-np"]);
}

#[test]
fn transcript_from_json_and_stdout() {
    let json = br#"{"text": "  hello world \n", "other": 1}"#.to_vec();
    assert_eq!(transcript_text(&Some(json), b"ignored").unwrap(), "hello world");
    let no_text = br#"{"segments": []}"#.to_vec();
    assert_eq!(transcript_text(&Some(no_text), b"").unwrap(), "");
    let number_text = br#"{"text": 5}"#.to_vec();
    assert_eq!(transcript_text(&Some(number_text), b"").unwrap(), "");
    match transcript_text(&Some(b"not json".to_vec()), b"") {
        Err(ToolError::Runtime(m)) => assert!(m.starts_with("解析 whisper json: "), "{m}"),
        other => panic!("{:?}", other),
    }
    assert_eq!(transcript_text(&None, b"raw out\xff").unwrap(), "raw out\u{FFFD}");
}

#[test]
fn read_path_whitelist() {
    assert!(check_read_path("/tmp/lly/a.mp3", "mp3").is_ok());
    assert!(check_read_path("/home/radxa/doc/x.xlsx", "xlsx").is_ok());
    assert!(check_read_path("/var/www/index.md", "md").is_ok());
    assert!(check_read_path("/tmp/a.json", "json").is_ok());
    assert_eq!(invalid(check_read_path("/etc/passwd", "")), "路径不在白名单: /etc/passwd");
    assert_eq!(invalid(check_read_path("/tmpx/a.mp3", "mp3")), "路径不在白名单: /tmpx/a.mp3");
    assert_eq!(invalid(check_read_path("/home/radxay/a.mp3", "mp3")), "路径不在白名单: /home/radxay/a.mp3");
    assert_eq!(invalid(check_read_path("/tmp", "")), "不支持的扩展名: .");
    assert_eq!(invalid(check_read_path("/tmp/a.exe", "exe")), "不支持的扩展名: .exe");
}

#[test]
fn size_limit() {
    assert!(check_size(MAX_SIZE).is_ok());
    assert!(check_size(0).is_ok());
    assert_eq!(invalid(check_size(MAX_SIZE + 1)), "文件过大 524288001 > 524288000");
}

#[test]
fn paths_follow_std() {
    let samples = [
        "/tmp/lly/a.mp3", "/tmp/lly/A.MP3", "/tmp/.bashrc", "/tmp/a.", "/tmp/a.tar.gz", "/tmp/lly/",
        "/", "", ".", "..", "a/..", "a/.", "a/./", "./a.b", "/tmp//x.y//", "...", "x..y", ".a.b",
        "dir.d/file", "中文/文件.TXT", "a/b/c", "/var/www/..x",
    ];
    for p in samples {
        let std_path = Path::new(p);
        assert_eq!(file_name_of(p), std_path.file_name().map(|s| s.to_str().unwrap().to_string()), "{p}");
        assert_eq!(extension_of(p), std_path.extension().map(|s| s.to_str().unwrap().to_string()), "{p}");
        assert_eq!(stem_of(p), std_path.file_stem().map(|s| s.to_str().unwrap().to_string()), "{p}");
        let lower = std_path.extension().and_then(|e| e.to_str()).unwrap_or("").to_lowercase();
        assert_eq!(lowercase_extension(p), lower, "{p}");
    }
}

#[test]
fn join_follows_std() {
    let bases = ["/tmp/lly", "/tmp/lly/", "", "rel", "/"];
    let names = ["a.mp3", "/abs.mp3", "x/y"];
    for b in bases {
        for n in names {
            assert_eq!(join(b, n), Path::new(b).join(n).to_str().unwrap(), "{b} {n}");
        }
    }
}

#[test]
fn ffmpeg_args_character_check() {
    assert!(check_ffmpeg_args("-b:a 128k -vf scale=640:-1").is_ok());
    assert!(check_ffmpeg_args("-filter_complex [0:v]scale=1:1[out] -map #0 +x %d (y)").is_ok());
    assert!(check_ffmpeg_args("中文").is_ok());
    assert!(check_ffmpeg_args("").is_ok());
    let msg = "ffmpeg 参数含非法字符（仅允许字母数字与 -_=.,:/%()[]+# 空格）";
    assert_eq!(invalid(check_ffmpeg_args("a;rm -rf /")), msg);
    assert_eq!(invalid(check_ffmpeg_args("a|b")), msg);
    assert_eq!(invalid(check_ffmpeg_args("$(x)")), msg);
    assert_eq!(invalid(check_ffmpeg_args("a\tb")), msg);
    assert_eq!(invalid(check_ffmpeg_args("'q'")), msg);
}

#[test]
fn ffmpeg_command_line() {
    let v = ffmpeg_args(&tool(Action::Convert, Some("mp3"), None, "/tmp"), "/tmp/in.wav", "/tmp/out.mp3").unwrap();
    assert_eq!(v, vec!["-y", "-i", "/tmp/in.wav", "/tmp/out.mp3"]);
    let t = tool(Action::Convert, Some("mp3"), Some("  -b:a  128k "), "/tmp");
    let v = ffmpeg_args(&t, "/tmp/in.wav", "o.mp3").unwrap();
    assert_eq!(v, vec!["-y", "-i", "/tmp/in.wav", "-b:a", "128k", "o.mp3"]);
    assert!(ffmpeg_args(&tool(Action::Convert, None, Some("x;y"), ""), "i", "o").is_err());
}

#[test]
fn file_plans() {
    assert_eq!(plan_file_action(&tool(Action::Safe, None, None, ""), "exe").unwrap(), FilePlan::Safe);
    assert_eq!(plan_file_action(&tool(Action::Info, None, None, ""), "mp4").unwrap(), FilePlan::ProbeMedia);
    assert_eq!(plan_file_action(&tool(Action::Info, None, None, ""), "xls").unwrap(), FilePlan::ExcelInfo);
    assert_eq!(plan_file_action(&tool(Action::Info, None, None, ""), "toml").unwrap(), FilePlan::TomlInfo);
    assert_eq!(plan_file_action(&tool(Action::Info, None, None, ""), "txt").unwrap(), FilePlan::PlainInfo);
    assert_eq!(plan_file_action(&tool(Action::Parse, None, None, ""), "xlsx").unwrap(), FilePlan::ParseExcel);
    assert_eq!(plan_file_action(&tool(Action::Parse, Some("TOML"), None, ""), "txt").unwrap(), FilePlan::ParseToml);
    assert_eq!(plan_file_action(&tool(Action::Parse, None, None, ""), "json").unwrap(), FilePlan::ParseJson);
    match plan_file_action(&tool(Action::Parse, None, None, ""), "txt") {
        Err(ToolError::InvalidArg(m)) => assert_eq!(m, "parse 仅支持 xlsx/toml/json，收到 txt"),
        other => panic!("{:?}", other),
    }
    match plan_file_action(&tool(Action::Convert, None, None, ""), "wav") {
        Err(ToolError::InvalidArg(m)) => assert_eq!(m, "convert 需要 --format"),
        other => panic!("{:?}", other),
    }
    assert_eq!(
        plan_file_action(&tool(Action::Convert, Some("MP3"), None, ""), "wav").unwrap(),
        FilePlan::Convert("mp3".to_string())
    );
    match plan_file_action(&tool(Action::Convert, Some("Exe"), None, ""), "wav") {
        Err(ToolError::InvalidArg(m)) => assert_eq!(m, "不支持的输出格式: exe"),
        other => panic!("{:?}", other),
    }
}

#[test]
fn convert_output_names() {
    assert_eq!(convert_output_path(&tool(Action::Convert, None, None, "/tmp/lly"), "/tmp/lly/song.wav", 1700000000, "mp3"), "/tmp/lly/song_1700000000.mp3");
    assert_eq!(convert_output_path(&tool(Action::Convert, None, None, ""), "/tmp/a.b.c", 1, "gif"), "a.b_1.gif");
    assert_eq!(convert_output_path(&tool(Action::Convert, None, None, "/x/"), "/tmp/.bashrc", 2, "png"), "/x/.bashrc_2.png");
    assert_eq!(convert_output_path(&tool(Action::Convert, None, None, "/x"), "/", 3, "mp4"), "/x/out_3.mp4");
    let p = convert_output_path(&tool(Action::Convert, None, None, "/tmp/out.d"), "/tmp/clip.MOV", 9, "webm");
    assert_eq!(Path::new(&p).extension().unwrap(), "webm");
}

#[test]
fn toml_top_level() {
    let s = toml_info("a = 1\nb = \"x\"\n[c]\nd = 2\n").unwrap();
    assert_eq!(s.tables, 3);
    assert_eq!(s.keys, vec!["a", "b", "c"]);
    match toml_info("a = = 1") {
        Err(ToolError::Runtime(m)) => assert!(m.starts_with("toml 解析失败: "), "{m}"),
        Err(other) => panic!("{:?}", other),
        Ok(_) => panic!("accepted bad toml"),
    }
}

#[test]
fn tool_failures() {
    let long = vec![b'e'; 800];
    match ffmpeg_failure(&long) {
        ToolError::Runtime(m) => assert_eq!(m, format!("ffmpeg 失败: {}", "e".repeat(500))),
        other => panic!("{:?}", other),
    }
    match ffmpeg_failure(b"bad") {
        ToolError::Runtime(m) => assert_eq!(m, "ffmpeg 失败: bad"),
        other => panic!("{:?}", other),
    }
    match ffprobe_failure(b"no such file") {
        ToolError::Runtime(m) => assert_eq!(m, "ffprobe 失败: no such file"),
        other => panic!("{:?}", other),
    }
}

#[test]
fn parse_products() {
    let t = tool(Action::Parse, None, None, "/tmp/lly");
    assert_eq!(parse_output_path(&t, "/home/radxa/cfg.toml", 12), "/tmp/lly/cfg_12.json");
    let t = parse_toml_document("a = 1\n[b]\nc = 2\n").unwrap();
    assert_eq!(t, "a = 1\n[b]\nc = 2\n".parse::<toml::Value>().unwrap());
    assert_eq!(t["b"]["c"].as_integer(), Some(2));
    match parse_toml_document("a = = 1") {
        Err(ToolError::Runtime(m)) => assert!(m.starts_with("toml 解析失败: "), "{m}"),
        other => panic!("{:?}", other.map(|_| ())),
    }
    let v = parse_json_document("{\"k\": [1, 2]}").unwrap();
    assert_eq!(v, value(r#"{"k": [1, 2]}"#));
    match parse_json_document("{") {
        Err(ToolError::Runtime(m)) => assert!(m.starts_with("json 解析失败: "), "{m}"),
        other => panic!("{:?}", other.map(|_| ())),
    }
    assert_eq!(parse_probe_output(b"{\"format\": {}}").unwrap(), value(r#"{"format": {}}"#));
    match parse_probe_output(b"oops") {
        Err(ToolError::Runtime(m)) => assert!(m.starts_with("解析 ffprobe: "), "{m}"),
        other => panic!("{:?}", other.map(|_| ())),
    }
}

#[test]
fn reports() {
    let r = transcript_report(&transcribe("zh"), "hi".into(), Some(3));
    assert_eq!((r.text.as_str(), r.language.as_str(), r.model.as_str(), r.exit_code), ("hi", "zh", "base", 3));
    assert_eq!(transcript_report(&transcribe("zh"), String::new(), None).exit_code, -1);
    let c = convert_report("/tmp/o.mp3".into(), None);
    assert_eq!((c.output.as_str(), c.size), ("/tmp/o.mp3", 0));
    assert_eq!(convert_report("x".into(), Some(9)).size, 9);
    assert_eq!(SAFE_NOTE, "路径在白名单、扩展名与大小均合规");
}

#[test]
fn shell_syntax_refused() {
    for bad in [";", "|", "&", "$", "`", "<", ">", "'", "\"", "\\", "*", "?", "!", "{", "}", "~", "\n"] {
        assert!(check_ffmpeg_args(&format!("-b:a 1{bad}")).is_err(), "{bad:?}");
    }
}

#[test]
fn media_fields() {
    match media_field(Ok(value(r#"{"streams": []}"#))) {
        MediaField::Media(v) => assert_eq!(v, value(r#"{"streams": []}"#)),
        MediaField::MediaError(e) => panic!("{:?}", e),
    }
    match media_field(Err(ToolError::Runtime("ffprobe 失败: x".into()))) {
        MediaField::MediaError(ToolError::Runtime(m)) => assert_eq!(m, "ffprobe 失败: x"),
        _ => panic!("probe failure lost"),
    }
}

fn value(text: &str) -> serde_json::Value {
    serde_json::from_str(text).unwrap()
}
