use cv2ljspeech::audio::{Audio, AudioFormat};
use cv2ljspeech::converter::{Entry, LJSpeech, LJSpeechError};
use cv2ljspeech::manifest::{manifest_records, parse_manifest, ManifestRecord};
use cv2ljspeech::split::Split;
use cv2ljspeech::text::{decimal_string, extension, join_path, sanitize, with_extension};

fn converter(roots: &[&str], out: &str, dev: bool, train: bool) -> LJSpeech {
    let paths: Vec<String> = roots.iter().map(|r| r.to_string()).collect();
    let exist = vec![true; paths.len()];
    LJSpeech::new(paths, Some(out.to_string()), Some(dev), Some(train), Some(false), Some(false), true, &exist)
        .unwrap()
}

fn record(path: &str, transcript: &str) -> ManifestRecord {
    ManifestRecord { path: path.to_string(), transcript: transcript.to_string() }
}

fn lines(entries: &[Entry]) -> Vec<String> {
    entries.iter().map(|e| e.line.clone()).collect()
}

#[test]
fn sanitize_appends_and_strips_one_dot() {
    assert_eq!(sanitize("hello"), "hello.");
    assert_eq!(sanitize(".world."), "world.");
    assert_eq!(sanitize(""), ".");
    assert_eq!(sanitize("."), ".");
    assert_eq!(sanitize("a.."), "a..");
    assert_eq!(sanitize("..a"), ".a.");
    assert_eq!(sanitize("سالام"), "سالام.");
}

#[test]
fn sanitize_twice_is_sanitize_once() {
    for s in ["hello", ".world.", "", ".", "a.", ".x", "a b c"] {
        let once = sanitize(s);
        assert_eq!(sanitize(&once), once);
    }
}

#[test]
fn decimal_numbers() {
    assert_eq!(decimal_string(0), "0");
    assert_eq!(decimal_string(7), "7");
    assert_eq!(decimal_string(10), "10");
    assert_eq!(decimal_string(22050), "22050");
    assert_eq!(decimal_string(u64::MAX), "18446744073709551615");
}

#[test]
fn extensions_of_paths() {
    assert_eq!(extension("a.mp3"), "mp3");
    assert_eq!(extension("dir/a.b.wav"), "wav");
    assert_eq!(extension("dir.x/file"), "");
    assert_eq!(extension(".hidden"), "");
    assert_eq!(extension("a."), "");
    assert_eq!(with_extension("clips/a.mp3", "wav"), "clips/a.wav");
    assert_eq!(with_extension("clips/a", "wav"), "clips/a.wav");
    assert_eq!(with_extension(".hidden", "wav"), ".hidden.wav");
}

#[test]
fn joining_paths() {
    assert_eq!(join_path("out", "dev.txt"), "out/dev.txt");
    assert_eq!(join_path("out/", "dev.txt"), "out/dev.txt");
    assert_eq!(join_path("", "dev.txt"), "dev.txt");
}

#[test]
fn manifest_skips_header_and_takes_second_and_third_fields() {
    let tsv = b"client_id\tpath\tsentence\nc1\ta.mp3\thello\nc2\tb.mp3\t.world.\n";
    let recs = parse_manifest(tsv, true).unwrap();
    assert_eq!(recs.len(), 2);
    assert_eq!(recs[0].path, "a.mp3");
    assert_eq!(recs[0].transcript, "hello");
    assert_eq!(recs[1].path, "b.mp3");
    assert_eq!(recs[1].transcript, ".world.");
}

#[test]
fn manifest_with_ragged_row_is_malformed() {
    let tsv = b"client_id\tpath\tsentence\nc1\ta.mp3\n";
    assert!(matches!(parse_manifest(tsv, true), Err(LJSpeechError::FormatError(_))));
}

#[test]
fn manifest_with_two_columns_is_malformed() {
    let tsv = b"path\tsentence\na.mp3\thello\n";
    assert!(matches!(parse_manifest(tsv, true), Err(LJSpeechError::FormatError(_))));
    let rows = vec![vec!["x".to_string(), "y".to_string()]];
    assert!(matches!(manifest_records(&rows, false), Err(LJSpeechError::FormatError(_))));
}

#[test]
fn dev_scenario_lines_and_copies() {
    let mut ljs = converter(&["root"], "out", true, false);
    let tsv = b"client_id\tpath\tsentence\nc1\ta.mp3\thello\nc2\tb.mp3\t.world.\n";
    let recs = parse_manifest(tsv, true).unwrap();
    let entries = ljs.materialize("root", Split::Dev, &recs);
    assert_eq!(lines(&entries), vec!["dev_1|hello.", "dev_2|world."]);
    assert_eq!(entries[0].source, "root/clips/a.mp3");
    assert_eq!(entries[0].dest, "out/dev_clips/dev_1.mp3");
    assert_eq!(entries[1].source, "root/clips/b.mp3");
    assert_eq!(entries[1].dest, "out/dev_clips/dev_2.mp3");
    assert_eq!(ljs.next_index(Split::Dev), 3);
}

#[test]
fn two_roots_share_one_counter() {
    let mut ljs = converter(&["r1", "r2/"], "out", false, true);
    let a = vec![record("a.mp3", "one"), record("b.mp3", "two")];
    let b = vec![record("c.wav", "three"), record("d.mp3", "four")];
    let mut all = ljs.materialize("r1", Split::Train, &a);
    all.extend(ljs.materialize("r2/", Split::Train, &b));
    assert_eq!(lines(&all), vec!["train_1|one.", "train_2|two.", "train_3|three.", "train_4|four."]);
    assert_eq!(all[1].source, "r1/clips/b.mp3");
    assert_eq!(all[2].source, "r2/clips/c.wav");
    assert_eq!(all[2].dest, "out/train_clips/train_3.wav");
    let idx: Vec<u64> = all.iter().map(|e| e.index).collect();
    assert_eq!(idx, vec![1, 2, 3, 4]);
}

#[test]
fn splits_keep_their_own_counters() {
    let mut ljs = converter(&["r"], "out", true, true);
    let recs = vec![record("a.mp3", "x"), record("b.mp3", "y"), record("c.mp3", "z")];
    let dev = ljs.materialize("r", Split::Dev, &recs);
    let train = ljs.materialize("r", Split::Train, &recs[..1].to_vec());
    assert_eq!(lines(&dev), vec!["dev_1|x.", "dev_2|y.", "dev_3|z."]);
    assert_eq!(lines(&train), vec!["train_1|x."]);
    assert_eq!(ljs.next_index(Split::Test), 1);
}

#[test]
fn one_line_per_record_even_without_extension() {
    let mut ljs = converter(&["r"], "out", true, false);
    let recs = vec![record("noext", "a"), record("x.mp3", "b")];
    let entries = ljs.materialize("r", Split::Dev, &recs);
    assert_eq!(entries.len(), recs.len());
    assert_eq!(entries[0].dest, "out/dev_clips/dev_1.");
}

#[test]
fn missing_output_location_is_refused() {
    let r = LJSpeech::new(vec!["r".to_string()], Some("nowhere".to_string()), None, None, None, None, false, &vec![true]);
    match r {
        Err(LJSpeechError::DirError(p)) => assert_eq!(p, "nowhere"),
        _ => panic!("expected a directory error"),
    }
}

#[test]
fn no_split_enabled_is_refused() {
    let r = LJSpeech::new(vec![], None, Some(false), Some(false), Some(false), Some(false), true, &vec![]);
    assert!(matches!(r, Err(LJSpeechError::OtherError(_))));
}

#[test]
fn missing_root_is_refused() {
    let roots = vec!["a".to_string(), "b".to_string(), "c".to_string()];
    let r = LJSpeech::new(roots, None, None, None, None, None, true, &vec![true, false, false]);
    match r {
        Err(LJSpeechError::FileNotFoundError(p)) => assert_eq!(p, "b"),
        _ => panic!("expected a missing root"),
    }
}

#[test]
fn defaults_and_output_paths() {
    let ljs = LJSpeech::new(vec![], None, None, None, None, None, true, &vec![]).unwrap();
    assert_eq!(ljs.output_location, ".");
    assert_eq!(ljs.enabled_splits(), vec![Split::Dev, Split::Train]);
    assert_eq!(ljs.clips_dir(Split::Validated), "./validated_clips");
    assert_eq!(ljs.metadata_path(Split::Test), "./test.txt");
    assert_eq!(LJSpeech::manifest_path("corpus", Split::Train), "corpus/train.tsv");
    assert_eq!(ljs.next_index(Split::Dev), 1);
}

#[test]
fn audio_formats_and_transcoder_arguments() {
    let audio = Audio::new(vec!["d".to_string()]).unwrap();
    assert_eq!(audio.abs_paths, vec!["d".to_string()]);
    assert_eq!(audio.read_audio_file("d/a.wav"), AudioFormat::Wav);
    assert_eq!(audio.read_audio_file("d/a.mp3"), AudioFormat::Mp3);
    assert_eq!(audio.read_audio_file("d/a.flac"), AudioFormat::Unknown);
    assert_eq!(audio.read_audio_file("d/mp3"), AudioFormat::Unknown);
    assert_eq!(Audio::converted_path("d/a.mp3"), "d/a.wav");
    assert!(Audio::removes_source_after(AudioFormat::Mp3, true));
    assert!(!Audio::removes_source_after(AudioFormat::Mp3, false));
    assert!(!Audio::removes_source_after(AudioFormat::Wav, true));
    assert_eq!(
        Audio::transcoder_args("in.mp3", "in.wav"),
        vec!["-i", "in.mp3", "-ar", "22050", "-ac", "1", "-sample_fmt", "s16", "in.wav"]
    );
}

#[test]
fn counters_may_start_at_zero() {
    let mut ljs = converter(&["r"], "out", true, false);
    ljs.set_first_index(0);
    let entries = ljs.materialize("r", Split::Dev, &vec![record("a.mp3", "x")]);
    assert_eq!(lines(&entries), vec!["dev_0|x."]);
    assert_eq!(ljs.next_index(Split::Train), 0);
}

#[test]
fn manifest_without_header_keeps_every_row() {
    let tsv = b"c1\ta.mp3\thello\nc2\tb.mp3\t.world.\n";
    let recs = parse_manifest(tsv, false).unwrap();
    assert_eq!(recs.len(), 2);
    assert_eq!(recs[0].path, "a.mp3");
    let mut ljs = converter(&["root"], "out", true, false);
    let entries = ljs.materialize("root", Split::Dev, &recs);
    assert_eq!(lines(&entries), vec!["dev_1|hello.", "dev_2|world."]);
    let rows = vec![
        vec!["h".to_string(), "p".to_string(), "s".to_string()],
        vec!["c".to_string(), "x.mp3".to_string(), "t".to_string()],
    ];
    assert_eq!(manifest_records(&rows, false).unwrap().len(), 2);
    assert_eq!(manifest_records(&rows, true).unwrap().len(), 1);
}

#[test]
fn manifest_with_bad_utf8_is_malformed() {
    let tsv = b"c1\ta.mp3\t\xff\xfe\n";
    assert!(matches!(parse_manifest(tsv, false), Err(LJSpeechError::FormatError(_))));
}

#[test]
fn stepping_uses_one_index_per_record() {
    let mut ljs = converter(&["r"], "out", true, false);
    let first = ljs.next_entry("r", Split::Dev, &record("a.mp3", "x"));
    assert_eq!(first.index, 1);
    assert_eq!(first.line, "dev_1|x.");
    assert_eq!(ljs.next_index(Split::Dev), 2);
    let second = ljs.next_entry("r", Split::Dev, &record("b.mp3", ".y"));
    assert_eq!(second.dest, "out/dev_clips/dev_2.mp3");
    assert_eq!(ljs.next_index(Split::Dev), 3);
    assert_eq!(ljs.next_index(Split::Train), 1);
}
