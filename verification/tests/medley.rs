use medley_maker::{MedleyBuilder, ProPresenterParser, TemplateManager};

#[test]
fn test_medley_builder() {
    let builder = MedleyBuilder::new("Test Medley".to_string());
    let medley = builder.build();
    assert_eq!(medley.title, "Test Medley");
    assert_eq!(medley.source_songs.len(), 0);
}

#[test]
fn test_template_manager() {
    let manager = TemplateManager::new();
    let templates = manager.list_templates();
    assert!(templates.contains(&"modern"));
    assert!(templates.contains(&"classic"));
    assert!(templates.contains(&"worship"));

    let modern = manager.get_template("modern").unwrap();
    assert_eq!(modern.name, "Modern");
}

#[test]
fn builder_keeps_songs_slides_and_last_template() {
    let manager = TemplateManager::new();
    let a = ProPresenterParser::song_from_bytes(b"Verse", Some("A"));
    let medley = MedleyBuilder::new("Mix".to_string())
        .add_song(a)
        .load_song(b"Chorus", "songs/B_Song.pro")
        .add_slide(0, "Verse 1".to_string(), 0)
        .add_slide(1, "Chorus 1".to_string(), 2)
        .with_template(manager.get_template("classic").unwrap())
        .with_template(manager.get_template("worship").unwrap())
        .build();
    assert_eq!(medley.title, "Mix");
    assert_eq!(medley.source_songs.len(), 2);
    assert_eq!(medley.source_songs[0].title, "A");
    assert_eq!(medley.source_songs[1].title, "B Song");
    assert_eq!(medley.source_songs[1].slide_groups[0].name, "Chorus 1");
    assert_eq!(medley.slide_references.len(), 2);
    assert_eq!(medley.slide_references[1].song_index, 1);
    assert_eq!(medley.slide_references[1].group_name, "Chorus 1");
    assert_eq!(medley.slide_references[1].slide_index, 2);
    assert!(medley.slide_references[0].transition.is_none());
    assert_eq!(medley.template.unwrap().name, "Worship");
}

#[test]
fn build_stamps_utc_time() {
    let medley = MedleyBuilder::new("T".to_string()).build();
    let stamp = medley.created_at.unwrap();
    let chars: Vec<char> = stamp.chars().collect();
    assert!(stamp.ends_with(" UTC"));
    assert_eq!(chars.len(), 23);
    for (i, c) in chars.iter().enumerate().take(19) {
        match i {
            4 | 7 => assert_eq!(*c, '-'),
            10 => assert_eq!(*c, ' '),
            13 | 16 => assert_eq!(*c, ':'),
            _ => assert!(c.is_ascii_digit()),
        }
    }
    let field = |a: usize| stamp[a..a + 2].parse::<u32>().unwrap();
    assert!((1..=12).contains(&field(5)));
    assert!((1..=31).contains(&field(8)));
    assert!(field(11) <= 23);
    assert!(field(14) <= 59);
    assert!(field(17) <= 60);
}

#[test]
fn unknown_template_names_find_nothing() {
    let manager = TemplateManager::new();
    assert!(manager.get_template("Modern").is_none());
    assert!(manager.get_template("").is_none());
    assert!(manager.get_template("modern ").is_none());
}

#[test]
fn templates_hold_their_settings() {
    let manager = TemplateManager::new();
    assert_eq!(manager.list_templates(), vec!["modern", "classic", "worship"]);
    let modern = manager.get_template("modern").unwrap();
    let bg = modern.background.unwrap();
    assert_eq!(bg.color.as_deref(), Some("#1a1a1a"));
    assert_eq!(bg.opacity.map(f64::from_bits), Some(1.0));
    let text = modern.text_format.unwrap();
    assert_eq!(text.font_family.as_deref(), Some("Helvetica Neue"));
    assert_eq!(text.font_size.map(f64::from_bits), Some(72.0));
    assert_eq!(text.shadow, Some(true));
    let worship = manager.get_template("worship").unwrap();
    assert_eq!(worship.background.unwrap().opacity.map(f64::from_bits), Some(0.8));
    let tr = worship.transitions.unwrap();
    assert_eq!(tr.transition_duration.map(f64::from_bits), Some(0.3));
    assert_eq!(tr.default_transition.as_deref(), Some("fade"));
    let classic = manager.get_template("classic").unwrap();
    assert_eq!(classic.name, "Classic");
    assert_eq!(classic.text_format.unwrap().font_size.map(f64::from_bits), Some(64.0));
    assert_eq!(classic.transitions.unwrap().default_transition.as_deref(), Some("slide"));
}
