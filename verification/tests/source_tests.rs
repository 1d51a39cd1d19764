use audio_cable::source::SourceType;

fn kind_of(file: &str) -> SourceType {
    assert!(SourceType::has_extension(file), "{file:?} has no extension");
    SourceType::from_local(String::from(file))
}

fn is_flac_with_path(kind: &SourceType, expected: &str) -> bool {
    match kind {
        SourceType::FLAC(path) => path == expected,
        _ => false,
    }
}

#[test]
fn lower_case_flac_is_decodable() {
    assert!(is_flac_with_path(&kind_of("track.flac"), "track.flac"));
}

#[test]
fn upper_case_flac_is_decodable() {
    assert!(is_flac_with_path(&kind_of("TRACK.FLAC"), "TRACK.FLAC"));
}

#[test]
fn mixed_case_flac_is_decodable() {
    assert!(is_flac_with_path(&kind_of("track.FlAc"), "track.FlAc"));
    assert!(is_flac_with_path(&kind_of("track.flaC"), "track.flaC"));
    assert!(is_flac_with_path(&kind_of("track.Flac"), "track.Flac"));
}

#[test]
fn flac_source_keeps_the_whole_identifier() {
    assert!(is_flac_with_path(&kind_of("/music/album/01.flac"), "/music/album/01.flac"));
}

#[test]
fn bare_extension_is_decodable() {
    assert!(is_flac_with_path(&kind_of(".flac"), ".flac"));
}

#[test]
fn trailing_dot_is_sourceless() {
    assert!(matches!(kind_of("track."), SourceType::SOURCELESS));
    assert!(matches!(kind_of("."), SourceType::SOURCELESS));
    assert!(matches!(kind_of("/music/track."), SourceType::SOURCELESS));
}

#[test]
fn other_extensions_are_unsupported() {
    assert!(matches!(kind_of("track.mp3"), SourceType::UNSUPPORTED));
    assert!(matches!(kind_of("track.wav"), SourceType::UNSUPPORTED));
    assert!(matches!(kind_of("track.f"), SourceType::UNSUPPORTED));
    assert!(matches!(kind_of("track.fla"), SourceType::UNSUPPORTED));
    assert!(matches!(kind_of("track.flacs"), SourceType::UNSUPPORTED));
    assert!(matches!(kind_of("track.flax"), SourceType::UNSUPPORTED));
    assert!(matches!(kind_of("track.glac"), SourceType::UNSUPPORTED));
    assert!(matches!(kind_of("track. flac"), SourceType::UNSUPPORTED));
}

#[test]
fn extension_is_what_follows_the_first_dot() {
    assert!(matches!(kind_of("untitled.new.flac"), SourceType::UNSUPPORTED));
    assert!(is_flac_with_path(&kind_of("untitled.flac.bak"), "untitled.flac.bak"));
    assert!(is_flac_with_path(&kind_of("a.flac.flac"), "a.flac.flac"));
}

#[test]
fn doubled_dot_gives_an_empty_extension() {
    assert!(matches!(kind_of("track..flac"), SourceType::SOURCELESS));
    assert!(matches!(kind_of(".."), SourceType::SOURCELESS));
}

#[test]
fn only_the_final_segment_counts() {
    assert!(is_flac_with_path(&kind_of("./track.flac"), "./track.flac"));
    assert!(is_flac_with_path(&kind_of("../music.d/track.flac"), "../music.d/track.flac"));
    assert!(matches!(kind_of("album.flac/track.ogg"), SourceType::UNSUPPORTED));
    assert!(matches!(kind_of("album.flac/track."), SourceType::SOURCELESS));
}

#[test]
fn letters_beyond_ascii_do_not_match() {
    assert!(matches!(kind_of("track.fla\u{0441}"), SourceType::UNSUPPORTED));
    assert!(matches!(kind_of("track.\u{ff46}lac"), SourceType::UNSUPPORTED));
    assert!(is_flac_with_path(&kind_of("\u{00e9}t\u{00e9}.flac"), "\u{00e9}t\u{00e9}.flac"));
}

#[test]
fn identifiers_without_a_dot_have_no_extension() {
    assert!(!SourceType::has_extension(""));
    assert!(!SourceType::has_extension("track"));
    assert!(!SourceType::has_extension("flac"));
    assert!(!SourceType::has_extension("/music/track"));
    assert!(!SourceType::has_extension("album.flac/track"));
    assert!(!SourceType::has_extension("album.flac/"));
    assert!(!SourceType::has_extension("/"));
}

#[test]
fn identifiers_with_a_dot_have_an_extension() {
    assert!(SourceType::has_extension("."));
    assert!(SourceType::has_extension("track.flac"));
    assert!(SourceType::has_extension("/music/.hidden"));
    assert!(SourceType::has_extension("a/b.c/d.e"));
}

#[test]
fn classification_is_repeatable() {
    for file in ["track.flac", "track.FLAC", "track.", "track.mp3", "a.b.flac", "x/y.flac"] {
        let first = kind_of(file);
        let second = kind_of(file);
        match (&first, &second) {
            (SourceType::FLAC(a), SourceType::FLAC(b)) => assert_eq!(a, b),
            (SourceType::SOURCELESS, SourceType::SOURCELESS) => {}
            (SourceType::UNSUPPORTED, SourceType::UNSUPPORTED) => {}
            _ => panic!("{file:?} was classified as {first:?} and then as {second:?}"),
        }
    }
}

#[test]
fn streams_are_unsupported() {
    assert!(matches!(SourceType::from_stream(), SourceType::UNSUPPORTED));
}

#[test]
fn only_flac_sources_have_a_path_to_decode() {
    let flac = kind_of("/music/track.FLAC");
    assert_eq!(flac.decodable_path(), Some(&String::from("/music/track.FLAC")));
    assert_eq!(kind_of("track.").decodable_path(), None);
    assert_eq!(kind_of("track.ogg").decodable_path(), None);
    assert_eq!(SourceType::from_stream().decodable_path(), None);
}
