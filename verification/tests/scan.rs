use music_scan::config::Config;
use music_scan::metadata::{ExtractionError, Probed, TagFields};
use music_scan::scan::{scan_dirs, Entry, Pass};
use music_scan::stats::ScanStats;
use std::time::Duration;

fn config(valid: &[&str]) -> Config {
    Config {
        verbose: false,
        valid_extensions: valid.iter().map(|text| text.to_string()).collect(),
        scan_roots: vec!["music".to_string()],
    }
}

fn tagged(title: &str) -> Result<Probed, String> {
    Ok(Probed {
        tags: Some(TagFields {
            title: Some(title.to_string()),
            artist: Some("Artist".to_string()),
            album: Some("Album".to_string()),
            genre: None,
            track: Some(1),
        }),
        duration: Duration::from_secs(180),
    })
}

fn untagged() -> Result<Probed, String> {
    Ok(Probed { tags: None, duration: Duration::from_secs(2) })
}

fn corrupt() -> Result<Probed, String> {
    Err("corrupt tag container".to_string())
}

fn file(name: &str, probe: Result<Probed, String>) -> Entry {
    Entry::File { name: name.to_string(), probe }
}

fn pairs(list: &[(&str, u32)]) -> Vec<(String, u32)> {
    list.iter().map(|(text, count)| (text.to_string(), *count)).collect()
}

fn figures(stats: &ScanStats) -> (u32, u32, u32, u32) {
    (stats.valid_files(), stats.other_files(), stats.error_files(), stats.directories())
}

fn mixed_walk() -> Vec<Entry> {
    vec![
        Entry::Directory,
        file("01 Intro.MP3", tagged("Intro")),
        file("cover.jpg", corrupt()),
        Entry::Directory,
        file("02 Broken.mp3", corrupt()),
        file("03 Bare.flac", untagged()),
        file("README", corrupt()),
        file(".hidden", corrupt()),
        file("04 Outro.flac", tagged("Outro")),
        Entry::Directory,
        file("notes.txt", corrupt()),
    ]
}

#[test]
fn end_to_end_estimate() {
    let walk = vec![file("a.mp3", tagged("A")), file("b.txt", corrupt()), Entry::Directory];
    let stats = scan_dirs(&config(&["mp3"]), true, &walk);
    assert_eq!(stats.valid_files(), 1);
    assert_eq!(stats.other_files(), 1);
    assert_eq!(stats.directories(), 1);
    assert_eq!(stats.error_files(), 0);
    assert_eq!(stats.extension_counts(), pairs(&[("mp3", 1), ("txt", 1)]));
}

#[test]
fn end_to_end_real_scan() {
    let walk = vec![file("a.mp3", tagged("A")), file("b.txt", corrupt()), Entry::Directory];
    let stats = scan_dirs(&config(&["mp3"]), false, &walk);
    assert_eq!(stats.valid_files(), 1);
    assert_eq!(stats.other_files(), 1);
    assert_eq!(stats.directories(), 1);
    assert_eq!(stats.error_files(), 0);
    assert_eq!(stats.extension_counts(), pairs(&[("mp3", 1), ("txt", 1)]));
}

#[test]
fn end_to_end_real_scan_extracts_the_metadata() {
    let cfg = config(&["mp3"]);
    let mut pass = Pass::new(false);
    let pending = pass.file(&cfg, "a.mp3").expect("an audio file has to be probed");
    assert_eq!(pending.extension(), "mp3");
    let extraction = pass.extracted(pending, &tagged("A")).unwrap();
    assert_eq!(extraction.info.title, "A");
    assert_eq!(extraction.info.artist, "Artist");
    assert_eq!(extraction.info.album, "Album");
    assert_eq!(extraction.info.genre, "");
    assert_eq!(extraction.info.track, 1);
    assert_eq!(extraction.info.duration, Duration::from_secs(180));
    assert!(pass.file(&cfg, "b.txt").is_none());
    pass.directory();
    let stats = pass.finish();
    assert_eq!(figures(&stats), (1, 1, 0, 1));
    assert_eq!(stats.extension_counts(), pairs(&[("mp3", 1), ("txt", 1)]));
}

#[test]
fn an_empty_walk_counts_nothing() {
    for estimate in [true, false] {
        let stats = scan_dirs(&config(&["mp3"]), estimate, &Vec::new());
        assert_eq!(figures(&stats), (0, 0, 0, 0));
        assert_eq!(stats.extension_counts(), Vec::new());
    }
}

#[test]
fn an_empty_directory_counts_once_and_as_nothing_else() {
    let cfg = config(&["mp3"]);
    let without = scan_dirs(&cfg, false, &vec![file("a.mp3", tagged("A"))]);
    let with = scan_dirs(&cfg, false, &vec![file("a.mp3", tagged("A")), Entry::Directory]);
    assert_eq!(with.directories(), without.directories() + 1);
    assert_eq!(with.valid_files(), without.valid_files());
    assert_eq!(with.other_files(), without.other_files());
    assert_eq!(with.error_files(), without.error_files());
    assert_eq!(with.files(), without.files());
    assert_eq!(with.extension_counts(), without.extension_counts());
}

#[test]
fn a_directory_step_counts_one_directory() {
    let mut pass = Pass::new(true);
    pass.directory();
    assert_eq!(figures(pass.stats()), (0, 0, 0, 1));
    pass.directory();
    assert_eq!(figures(pass.stats()), (0, 0, 0, 2));
    assert_eq!(pass.stats().extension_counts(), Vec::new());
}

#[test]
fn a_failure_is_counted_once_and_the_pass_goes_on() {
    let walk = vec![file("bad.mp3", corrupt()), file("good.mp3", tagged("Good"))];
    let stats = scan_dirs(&config(&["mp3"]), false, &walk);
    assert_eq!(stats.error_files(), 1);
    assert_eq!(stats.valid_files(), 1);
    assert_eq!(stats.other_files(), 0);
    assert_eq!(stats.extension_counts(), pairs(&[("mp3", 2)]));
}

#[test]
fn a_failure_changes_nothing_but_its_own_count() {
    let cfg = config(&["mp3", "flac"]);
    let mut with = mixed_walk();
    with.insert(3, file("extra.flac", corrupt()));
    let with = scan_dirs(&cfg, false, &with);
    let without = scan_dirs(&cfg, false, &mixed_walk());
    assert_eq!(with.error_files(), without.error_files() + 1);
    assert_eq!(with.valid_files(), without.valid_files());
    assert_eq!(with.other_files(), without.other_files());
    assert_eq!(with.directories(), without.directories());
    assert_eq!(with.extension_count(&"flac".to_string()), 3);
    assert_eq!(without.extension_count(&"flac".to_string()), 2);
    assert_eq!(with.extension_count(&"mp3".to_string()), 2);
}

#[test]
fn a_file_without_tags_is_a_failure() {
    let cfg = config(&["flac"]);
    let mut pass = Pass::new(false);
    let pending = pass.file(&cfg, "bare.flac").unwrap();
    assert_eq!(pass.extracted(pending, &untagged()), Err(ExtractionError::NoTagsFound));
    assert_eq!(figures(pass.stats()), (0, 0, 1, 0));
}

#[test]
fn a_codec_failure_is_a_failure() {
    let cfg = config(&["flac"]);
    let mut pass = Pass::new(false);
    let pending = pass.file(&cfg, "broken.flac").unwrap();
    assert_eq!(
        pass.extracted(pending, &corrupt()),
        Err(ExtractionError::CodecError("corrupt tag container".to_string()))
    );
    assert_eq!(figures(pass.stats()), (0, 0, 1, 0));
    assert_eq!(pass.stats().extension_counts(), pairs(&[("flac", 1)]));
}

#[test]
fn a_real_scan_of_a_mixed_walk() {
    let stats = scan_dirs(&config(&["mp3", "flac"]), false, &mixed_walk());
    assert_eq!(figures(&stats), (2, 4, 2, 3));
    assert_eq!(
        stats.extension_counts(),
        pairs(&[("", 1), ("flac", 2), ("jpg", 1), ("mp3", 2), ("none", 1), ("txt", 1)])
    );
}

#[test]
fn an_estimate_of_a_mixed_walk() {
    let stats = scan_dirs(&config(&["mp3", "flac"]), true, &mixed_walk());
    assert_eq!(figures(&stats), (4, 4, 0, 3));
    assert_eq!(
        stats.extension_counts(),
        pairs(&[("", 1), ("flac", 2), ("jpg", 1), ("mp3", 2), ("none", 1), ("txt", 1)])
    );
}

#[test]
fn every_file_is_accounted_for() {
    let files = mixed_walk().iter().filter(|entry| **entry != Entry::Directory).count() as u32;
    assert_eq!(files, 8);
    for estimate in [true, false] {
        let stats = scan_dirs(&config(&["mp3", "flac"]), estimate, &mixed_walk());
        assert_eq!(stats.other_files() + stats.valid_files() + stats.error_files(), files);
        assert_eq!(stats.files(), files);
        let sum: u32 = stats.extension_counts().iter().map(|(_, count)| *count).sum();
        assert_eq!(sum, files);
    }
}

#[test]
fn an_estimate_has_no_failures() {
    let walk = vec![file("bad.mp3", corrupt()), file("bare.mp3", untagged())];
    let stats = scan_dirs(&config(&["mp3"]), true, &walk);
    assert_eq!(stats.error_files(), 0);
    assert_eq!(stats.valid_files(), 2);
}

#[test]
fn an_estimate_asks_for_no_probe() {
    let cfg = config(&["mp3"]);
    let mut pass = Pass::new(true);
    assert!(pass.is_estimate());
    assert!(pass.file(&cfg, "a.mp3").is_none());
    assert!(pass.file(&cfg, "b.txt").is_none());
    assert_eq!(figures(pass.stats()), (1, 1, 0, 0));
}

#[test]
fn a_real_scan_probes_audio_files_only() {
    let cfg = config(&["mp3"]);
    let mut pass = Pass::new(false);
    assert!(!pass.is_estimate());
    assert!(pass.file(&cfg, "b.txt").is_none());
    assert!(pass.file(&cfg, "noext").is_none());
    assert_eq!(figures(pass.stats()), (0, 2, 0, 0));
    let pending = pass.file(&cfg, "A.MP3").unwrap();
    assert_eq!(figures(pass.stats()), (0, 2, 0, 0));
    assert_eq!(pass.stats().extension_count(&"mp3".to_string()), 0);
    assert!(pass.extracted(pending, &tagged("A")).is_ok());
    assert_eq!(figures(pass.stats()), (1, 2, 0, 0));
    assert_eq!(pass.stats().extension_count(&"mp3".to_string()), 1);
}

#[test]
fn two_passes_agree_where_nothing_fails() {
    let walk = vec![
        Entry::Directory,
        file("a.mp3", tagged("A")),
        file("b.txt", corrupt()),
        file("c.MP3", tagged("C")),
    ];
    let cfg = config(&["mp3"]);
    let estimate = scan_dirs(&cfg, true, &walk);
    let real = scan_dirs(&cfg, false, &walk);
    assert_eq!(estimate.extension_counts(), real.extension_counts());
    assert_eq!(figures(&estimate), figures(&real));
    assert_eq!(figures(&real), (2, 1, 0, 1));
}

#[test]
fn two_passes_differ_in_the_valid_files_where_one_fails() {
    let cfg = config(&["mp3", "flac"]);
    let estimate = scan_dirs(&cfg, true, &mixed_walk());
    let real = scan_dirs(&cfg, false, &mixed_walk());
    assert_eq!(estimate.extension_counts(), real.extension_counts());
    assert_eq!(estimate.other_files(), real.other_files());
    assert_eq!(estimate.directories(), real.directories());
    assert_ne!(estimate.valid_files(), real.valid_files());
    assert_eq!(estimate.valid_files(), real.valid_files() + real.error_files());
}

#[test]
fn a_pass_starts_from_nothing() {
    let cfg = config(&["mp3"]);
    let walk = vec![file("a.mp3", corrupt()), Entry::Directory];
    let first = scan_dirs(&cfg, false, &walk);
    let second = scan_dirs(&cfg, false, &walk);
    assert_eq!(figures(&first), (0, 0, 1, 1));
    assert_eq!(figures(&second), (0, 0, 1, 1));
}

#[test]
fn without_audio_types_every_file_is_other() {
    let stats = scan_dirs(&config(&[]), false, &mixed_walk());
    assert_eq!(figures(&stats), (0, 8, 0, 3));
}

#[test]
fn the_sentinel_and_the_empty_key_can_be_audio_types() {
    let walk = vec![file("README", tagged("R")), file(".hidden", corrupt())];
    let stats = scan_dirs(&config(&["none", ""]), false, &walk);
    assert_eq!(figures(&stats), (1, 0, 1, 0));
    assert_eq!(stats.extension_counts(), pairs(&[("", 1), ("none", 1)]));
}

#[test]
fn two_passes_report_the_same_where_nothing_fails() {
    let walk = vec![
        file("x.ogg", tagged("X")),
        Entry::Directory,
        file("y.OGG", tagged("Y")),
        file("z", corrupt()),
    ];
    let cfg = config(&["ogg"]);
    assert_eq!(scan_dirs(&cfg, true, &walk).report(), scan_dirs(&cfg, false, &walk).report());
}
