use music_scan::classifier::{classify, is_valid};

fn extensions(list: &[&str]) -> Vec<String> {
    list.iter().map(|text| text.to_string()).collect()
}

#[test]
fn classify_lowercases_the_extension() {
    assert_eq!(classify("song.MP3"), "mp3");
}

#[test]
fn classify_takes_the_last_segment() {
    assert_eq!(classify("archive.tar.gz"), "gz");
}

#[test]
fn classify_without_a_dot_gives_the_sentinel() {
    assert_eq!(classify("noext"), "none");
}

#[test]
fn classify_leading_dot_alone_gives_the_empty_key() {
    assert_eq!(classify(".gitignore"), "");
}

#[test]
fn classify_single_dot_gives_the_empty_key() {
    assert_eq!(classify("."), "");
}

#[test]
fn classify_trailing_dot_gives_the_empty_key() {
    assert_eq!(classify("notes."), "");
}

#[test]
fn classify_two_dots_gives_the_empty_key() {
    assert_eq!(classify(".."), "");
}

#[test]
fn classify_hidden_file_with_extension() {
    assert_eq!(classify(".profile.BAK"), "bak");
}

#[test]
fn classify_empty_name_gives_the_sentinel() {
    assert_eq!(classify(""), "none");
}

#[test]
fn classify_extension_spelled_like_the_sentinel() {
    assert_eq!(classify("track.NONE"), "none");
    assert_eq!(classify("NONE"), "none");
}

#[test]
fn classify_counts_characters_not_bytes() {
    assert_eq!(classify("Größe.Flac"), "flac");
    assert_eq!(classify("日本語.Ogg"), "ogg");
}

#[test]
fn classify_lowercases_beyond_ascii() {
    assert_eq!(classify("lied.ÄÖÜ"), "äöü");
}

#[test]
fn classify_is_case_insensitive() {
    assert_eq!(classify("a.FlAc"), classify("b.flac"));
}

#[test]
fn is_valid_finds_a_listed_key() {
    let valid = extensions(&["mp3", "flac", "ogg"]);
    assert!(is_valid(&"mp3".to_string(), &valid));
    assert!(is_valid(&"ogg".to_string(), &valid));
}

#[test]
fn is_valid_rejects_an_unlisted_key() {
    let valid = extensions(&["mp3", "flac"]);
    assert!(!is_valid(&"txt".to_string(), &valid));
    assert!(!is_valid(&"".to_string(), &valid));
    assert!(!is_valid(&"none".to_string(), &valid));
}

#[test]
fn is_valid_on_an_empty_list() {
    assert!(!is_valid(&"mp3".to_string(), &Vec::new()));
}

#[test]
fn is_valid_compares_exactly() {
    let valid = extensions(&["mp3"]);
    assert!(!is_valid(&"MP3".to_string(), &valid));
    assert!(!is_valid(&"mp".to_string(), &valid));
    assert!(is_valid(&classify("Song.MP3"), &valid));
}
