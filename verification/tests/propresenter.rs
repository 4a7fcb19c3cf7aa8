use medley_maker::propresenter::{text_preview, total_slide_count};
use medley_maker::{BackgroundType, MediaType, ProPresenterParser};

#[test]
fn test_uuid_extraction() {
    let test_data = "some data 6F889546-A201-4B99-928D-F0D45251162E more data";
    let uuid = ProPresenterParser::extract_first_uuid(test_data);
    assert_eq!(uuid, Some("6F889546-A201-4B99-928D-F0D45251162E".to_string()));
}

#[test]
fn test_slide_groups() {
    let test_data = "some data Verse 1 content Chorus content";
    let groups = ProPresenterParser::extract_slide_groups(test_data);
    assert!(!groups.is_empty());
    assert!(groups.iter().any(|g| g.name.contains("Verse")));
    assert!(groups.iter().any(|g| g.name.contains("Chorus")));
}

#[test]
fn test_filename_title_cleaning() {
    assert_eq!(ProPresenterParser::clean_filename_title("Way_Maker.pro"), "Way Maker");
    assert_eq!(
        ProPresenterParser::clean_filename_title("Another-In-The-Fire.pro"),
        "Another In The Fire"
    );
}

#[test]
fn title_cleaning_collapses_and_trims_white_space() {
    assert_eq!(ProPresenterParser::clean_filename_title("  _Holy__Spirit- "), "Holy Spirit");
    assert_eq!(ProPresenterParser::clean_filename_title("a\t\nb"), "a b");
    assert_eq!(ProPresenterParser::clean_filename_title(""), "");
    assert_eq!(ProPresenterParser::clean_filename_title("___"), "");
}

#[test]
fn title_cleaning_removes_every_pro_without_overlap() {
    assert_eq!(ProPresenterParser::clean_filename_title("A.proB.pro"), "AB");
    assert_eq!(ProPresenterParser::clean_filename_title("Song.prop"), "Songp");
    assert_eq!(ProPresenterParser::clean_filename_title(".p.proro"), ".pro");
}

#[test]
fn uuid_extraction_takes_the_first_of_several() {
    let data = "x 11111111-2222-3333-4444-555555555555 y AAAAAAAA-BBBB-CCCC-DDDD-EEEEEEEEEEEE";
    assert_eq!(
        ProPresenterParser::extract_first_uuid(data),
        Some("11111111-2222-3333-4444-555555555555".to_string())
    );
}

#[test]
fn uuid_extraction_ignores_lower_case_and_short_forms() {
    assert_eq!(ProPresenterParser::extract_first_uuid("6f889546-a201-4b99-928d-f0d45251162e"), None);
    assert_eq!(ProPresenterParser::extract_first_uuid("6F889546-A201-4B99-928D-F0D4525116"), None);
    assert_eq!(ProPresenterParser::extract_first_uuid(""), None);
}

#[test]
fn slide_groups_follow_keyword_order_and_numbering() {
    let groups = ProPresenterParser::extract_slide_groups("Bridge then Pre-Chorus");
    let names: Vec<&str> = groups.iter().map(|g| g.name.as_str()).collect();
    assert_eq!(names, vec!["Chorus 1", "Bridge 1", "Pre-Chorus 1"]);
    let uuids: Vec<&str> = groups.iter().map(|g| g.uuid.as_str()).collect();
    assert_eq!(uuids, vec!["extracted-chorus-0", "extracted-bridge-1", "extracted-pre-chorus-2"]);
    let slide = &groups[2].slides[0];
    assert_eq!(groups[2].slides.len(), 1);
    assert_eq!(slide.uuid, "slide-pre-chorus-1");
    assert_eq!(slide.plain_text.as_deref(), Some("[Pre-Chorus content]"));
    assert!(slide.text_elements.is_empty());
    assert!(slide.background.is_none());
    assert!(groups[2].color.is_none());
}

#[test]
fn slide_groups_number_past_nine() {
    let text = "Verse Chorus Bridge Intro Outro Tag Pre-Chorus Refrain Instrumental Solo";
    let groups = ProPresenterParser::extract_slide_groups(text);
    assert_eq!(groups.len(), 10);
    assert_eq!(groups[9].uuid, "extracted-solo-9");
    assert_eq!(groups[5].name, "Tag 1");
}

#[test]
fn slide_groups_default_when_no_keyword() {
    let groups = ProPresenterParser::extract_slide_groups("nothing to see; verse in lower case");
    assert_eq!(groups.len(), 1);
    assert_eq!(groups[0].name, "Content");
    assert_eq!(groups[0].uuid, "default-content-group");
    assert_eq!(groups[0].slides[0].uuid, "default-slide-1");
    assert_eq!(
        groups[0].slides[0].plain_text.as_deref(),
        Some("[Song content - parsing in progress]")
    );
}

#[test]
fn parse_binary_builds_song_from_path_and_bytes() {
    let data = b"\x00\x01 Intro 6F889546-A201-4B99-928D-F0D45251162E Outro\xff";
    let song = ProPresenterParser::parse_binary(data, "library/Way_Maker.pro");
    assert_eq!(song.title, "Way Maker");
    assert_eq!(song.uuid, "6F889546-A201-4B99-928D-F0D45251162E");
    assert_eq!(song.version.as_deref(), Some("7.0"));
    let names: Vec<&str> = song.slide_groups.iter().map(|g| g.name.as_str()).collect();
    assert_eq!(names, vec!["Intro 1", "Outro 1"]);
    assert!(song.media_assets.is_empty());
    assert!(song.metadata.author.is_none());
    assert!(song.metadata.tags.is_empty());
}

#[test]
fn parse_binary_uses_nil_uuid_and_unknown_title() {
    let song = ProPresenterParser::song_from_bytes(b"plain", None);
    assert_eq!(song.title, "Unknown");
    assert_eq!(song.uuid, "00000000-0000-0000-0000-000000000000");
    assert_eq!(song.slide_groups.len(), 1);
    let song = ProPresenterParser::parse_binary(b"plain", "/");
    assert_eq!(song.title, "Unknown");
}

#[test]
fn extract_basic_info_decodes_invalid_utf8_lossily() {
    let (title, uuid, groups) =
        ProPresenterParser::extract_basic_info(b"Ver\xffse Solo", "My-Song");
    assert_eq!(title, "My Song");
    assert_eq!(uuid, "00000000-0000-0000-0000-000000000000");
    let names: Vec<&str> = groups.iter().map(|g| g.name.as_str()).collect();
    assert_eq!(names, vec!["Solo 1"]);
    let (_, _, groups) = ProPresenterParser::basic_info_from_text("Ver\u{FFFD}se", "x");
    assert_eq!(groups[0].name, "Content");
}

#[test]
fn text_preview_shows_first_eight_words() {
    assert_eq!(text_preview("one two three"), "one two three");
    assert_eq!(text_preview("  a  b c d e f g h  "), "a b c d e f g h");
    assert_eq!(text_preview("a b c d e f g h i j"), "a b c d e f g h...");
    assert_eq!(text_preview(""), "");
}

#[test]
fn enums_are_comparable() {
    assert_eq!(BackgroundType::NoBackground, BackgroundType::NoBackground);
    assert_ne!(MediaType::Image, MediaType::Video);
}

#[test]
fn total_slide_count_sums_group_sizes() {
    let mut song = ProPresenterParser::song_from_bytes(b"Verse Chorus Solo", Some("S"));
    assert_eq!(total_slide_count(&song), 3);
    let extra = song.slide_groups[0].slides[0].clone();
    song.slide_groups[1].slides.push(extra);
    assert_eq!(total_slide_count(&song), 4);
    song.slide_groups.clear();
    assert_eq!(total_slide_count(&song), 0);
}
