//! Medley builder and predefined medley templates.

use vstd::prelude::*;

use crate::propresenter::{
    clean_title, file_name_stem, is_parsed_song, is_plain_path, last_segment, opt_text,
    path_file_stem, title_source, utf8_lossy, ProPresenterParser,
    ProPresenterSong,
};
use crate::text::same_text;

verus! {

broadcast use vstd::string::group_string_axioms;

/// Reference to one slide of a source song.
#[derive(Debug, Clone)]
pub struct SlideReference {
    /// Index of the source song.
    pub song_index: usize,
    /// Group name in the source song.
    pub group_name: String,
    /// Slide index within the group.
    pub slide_index: usize,
    /// Optional custom transition.
    pub transition: Option<String>,
}

/// Styling and behaviour of a medley.
#[derive(Debug, Clone)]
pub struct MedleyTemplate {
    /// Template name.
    pub name: String,
    /// Background settings.
    pub background: Option<BackgroundSettings>,
    /// Text formatting settings.
    pub text_format: Option<TextFormatSettings>,
    /// Transition settings.
    pub transitions: Option<TransitionSettings>,
}

/// Background settings. `opacity` holds the bit pattern of an IEEE-754
/// binary64 number (`f64::to_bits`).
#[derive(Debug, Clone)]
pub struct BackgroundSettings {
    pub color: Option<String>,
    pub image_path: Option<String>,
    pub opacity: Option<u64>,
}

/// Text formatting settings. `font_size` holds the bit pattern of an
/// IEEE-754 binary64 number (`f64::to_bits`).
#[derive(Debug, Clone)]
pub struct TextFormatSettings {
    pub font_family: Option<String>,
    pub font_size: Option<u64>,
    pub color: Option<String>,
    pub shadow: Option<bool>,
    pub outline: Option<bool>,
}

/// Transition settings between slides. `transition_duration` holds the bit
/// pattern of an IEEE-754 binary64 number of seconds (`f64::to_bits`).
#[derive(Debug, Clone)]
pub struct TransitionSettings {
    pub default_transition: Option<String>,
    pub transition_duration: Option<u64>,
    pub auto_advance: Option<bool>,
}

/// A complete medley.
#[derive(Debug, Clone)]
pub struct Medley {
    /// Medley title.
    pub title: String,
    /// Source songs used in the medley.
    pub source_songs: Vec<ProPresenterSong>,
    /// Ordered slide references.
    pub slide_references: Vec<SlideReference>,
    /// Applied template, if any.
    pub template: Option<MedleyTemplate>,
    /// Creation timestamp.
    pub created_at: Option<String>,
}

// ---------------------------------------------------------------------------
// Timestamps

/// The `chrono` format of a medley's creation timestamp.
pub open spec fn timestamp_format() -> Seq<char> {
    "%Y-%m-%d %H:%M:%S UTC"@
}

/// Whether `c` is an ASCII digit.
pub open spec fn is_digit(c: char) -> bool {
    '0' <= c && c <= '9'
}

/// The number written by the two ASCII digits `a` and `b`.
pub open spec fn two_digit_value(a: char, b: char) -> int {
    10 * ((a as int) - ('0' as int)) + ((b as int) - ('0' as int))
}

/// Whether `s` is a creation timestamp: a year of at least four characters
/// (digits, the first possibly a sign), then "-MM-DD HH:MM:SS UTC" with two
/// digits in each field, the month from 01 to 12, the day from 01 to 31, the
/// hour from 00 to 23, the minute from 00 to 59 and the second from 00 to 60.
pub open spec fn is_utc_timestamp(s: Seq<char>) -> bool {
    &&& s.len() >= 23
    &&& {
        let y = s.take(s.len() - 19);
        let t = s.skip(s.len() - 19);
        &&& (is_digit(y[0]) || y[0] == '+' || y[0] == '-')
        &&& forall|k: int| 1 <= k < y.len() ==> is_digit(#[trigger] y[k])
        &&& t[0] == '-' && is_digit(t[1]) && is_digit(t[2])
        &&& t[3] == '-' && is_digit(t[4]) && is_digit(t[5])
        &&& t[6] == ' ' && is_digit(t[7]) && is_digit(t[8])
        &&& t[9] == ':' && is_digit(t[10]) && is_digit(t[11])
        &&& t[12] == ':' && is_digit(t[13]) && is_digit(t[14])
        &&& t.skip(15) == " UTC"@
        &&& 1 <= two_digit_value(t[1], t[2]) <= 12
        &&& 1 <= two_digit_value(t[4], t[5]) <= 31
        &&& two_digit_value(t[7], t[8]) <= 23
        &&& two_digit_value(t[10], t[11]) <= 59
        &&& two_digit_value(t[13], t[14]) <= 60
    }
}

/// The current time formatted with `chrono::Utc::now().format(format)` and
/// `ToString::to_string`, for the medley timestamp format only: another
/// format may not parse, and `to_string` panics when formatting fails. The
/// time is whatever the clock says, so only the shape of the text is
/// stated: chrono writes the year with at least four digits (with a sign
/// outside 0..=9999) and every other field as two digits of a calendar
/// month, day, hour, minute and second (60 for a leap second). `Utc::now`
/// also panics when the system clock reads before 1970; a `requires` cannot
/// rule out a clock reading, so that is not stated.
#[verifier::external_body]
fn utc_now_formatted(format: &str) -> (s: String)
    requires
        format@ == timestamp_format(),
    ensures
        is_utc_timestamp(s@),
{
    chrono::Utc::now().format(format).to_string()
}

// ---------------------------------------------------------------------------
// Builder

/// Builder for medleys made from ProPresenter songs.
pub struct MedleyBuilder {
    title: String,
    source_songs: Vec<ProPresenterSong>,
    slide_references: Vec<SlideReference>,
    template: Option<MedleyTemplate>,
}

impl MedleyBuilder {
    /// The title the medley will have.
    pub closed spec fn title_text(&self) -> Seq<char> {
        self.title@
    }

    /// The source songs added so far, in order.
    pub closed spec fn songs(&self) -> Seq<ProPresenterSong> {
        self.source_songs@
    }

    /// The slide references added so far, in order.
    pub closed spec fn references(&self) -> Seq<SlideReference> {
        self.slide_references@
    }

    /// The template chosen so far.
    pub closed spec fn chosen_template(&self) -> Option<MedleyTemplate> {
        self.template
    }

    /// A new builder for a medley with the given title and nothing else.
    pub fn new(title: String) -> (b: Self)
        ensures
            b.title_text() == title@,
            b.songs() == Seq::<ProPresenterSong>::empty(),
            b.references() == Seq::<SlideReference>::empty(),
            b.chosen_template() is None,
    {
        MedleyBuilder {
            title,
            source_songs: Vec::new(),
            slide_references: Vec::new(),
            template: None,
        }
    }

    /// Add the song parsed from the bytes of the file at `path`.
    pub fn load_song(self, data: &[u8], path: &str) -> (b: Self)
        ensures
            b.title_text() == self.title_text(),
            b.songs().len() == self.songs().len() + 1,
            b.songs().drop_last() == self.songs(),
            is_parsed_song(b.songs().last(), utf8_lossy(data@), title_source(path_file_stem(path@))),
            is_plain_path(path@) ==> b.songs().last().title@ == clean_title(
                file_name_stem(last_segment(path@)),
            ),
            b.references() == self.references(),
            b.chosen_template() == self.chosen_template(),
    {
        let song = ProPresenterParser::parse_binary(data, path);
        let b = self.add_song(song);
        assert(b.songs().drop_last() == self.songs());
        b
    }

    /// Add a song.
    pub fn add_song(self, song: ProPresenterSong) -> (b: Self)
        ensures
            b.title_text() == self.title_text(),
            b.songs() == self.songs().push(song),
            b.references() == self.references(),
            b.chosen_template() == self.chosen_template(),
    {
        let mut b = self;
        b.source_songs.push(song);
        b
    }

    /// Apply a template; it replaces any template applied before.
    pub fn with_template(self, template: MedleyTemplate) -> (b: Self)
        ensures
            b.title_text() == self.title_text(),
            b.songs() == self.songs(),
            b.references() == self.references(),
            b.chosen_template() == Some(template),
    {
        let mut b = self;
        b.template = Some(template);
        b
    }

    /// Add a reference to a slide, with no custom transition.
    pub fn add_slide(self, song_index: usize, group_name: String, slide_index: usize) -> (b: Self)
        ensures
            b.title_text() == self.title_text(),
            b.songs() == self.songs(),
            b.references() == self.references().push(
                (SlideReference { song_index, group_name, slide_index, transition: None }),
            ),
            b.chosen_template() == self.chosen_template(),
    {
        let mut b = self;
        b.slide_references.push(SlideReference { song_index, group_name, slide_index, transition: None });
        b
    }

    /// Build the medley, stamped with the current UTC time.
    pub fn build(self) -> (m: Medley)
        ensures
            m.title@ == self.title_text(),
            m.source_songs@ == self.songs(),
            m.slide_references@ == self.references(),
            m.template == self.chosen_template(),
            m.created_at matches Some(stamp) && is_utc_timestamp(stamp@),
    {
        let stamp = utc_now_formatted("%Y-%m-%d %H:%M:%S UTC");
        Medley {
            title: self.title,
            source_songs: self.source_songs,
            slide_references: self.slide_references,
            template: self.template,
            created_at: Some(stamp),
        }
    }
}

// ---------------------------------------------------------------------------
// Templates

/// The names under which the predefined templates are found, in listing order.
pub open spec fn template_names() -> Seq<Seq<char>> {
    seq!["modern"@, "classic"@, "worship"@]
}

/// Whether a predefined template is found under `name`.
pub open spec fn is_template_name(name: Seq<char>) -> bool {
    name == "modern"@ || name == "classic"@ || name == "worship"@
}

/// Whether `t` is the template with the given display name, background color
/// and opacity, font family, size and color, shadow and outline flags, and
/// default transition and its duration (numbers as binary64 bit patterns),
/// with no background image and no automatic advance.
pub open spec fn is_template(
    t: MedleyTemplate,
    name: Seq<char>,
    background: Seq<char>,
    opacity: u64,
    font: Seq<char>,
    size: u64,
    color: Seq<char>,
    shadow: bool,
    outline: bool,
    transition: Seq<char>,
    duration: u64,
) -> bool {
    &&& t.name@ == name
    &&& t.background matches Some(b) && {
        &&& opt_text(b.color) == Some(background)
        &&& b.image_path is None
        &&& b.opacity == Some(opacity)
    }
    &&& t.text_format matches Some(f) && {
        &&& opt_text(f.font_family) == Some(font)
        &&& f.font_size == Some(size)
        &&& opt_text(f.color) == Some(color)
        &&& f.shadow == Some(shadow)
        &&& f.outline == Some(outline)
    }
    &&& t.transitions matches Some(tr) && {
        &&& opt_text(tr.default_transition) == Some(transition)
        &&& tr.transition_duration == Some(duration)
        &&& tr.auto_advance == Some(false)
    }
}

/// The "Modern" template: near-black background, white 72pt Helvetica Neue
/// with shadow, half-second fades.
pub open spec fn is_modern_template(t: MedleyTemplate) -> bool {
    is_template(
        t,
        "Modern"@,
        "#1a1a1a"@,
        0x3ff0000000000000,
        "Helvetica Neue"@,
        0x4052000000000000,
        "#ffffff"@,
        true,
        false,
        "fade"@,
        0x3fe0000000000000,
    )
}

/// The "Classic" template: navy background, yellow 64pt Times New Roman with
/// outline, one-second slides.
pub open spec fn is_classic_template(t: MedleyTemplate) -> bool {
    is_template(
        t,
        "Classic"@,
        "#000080"@,
        0x3ff0000000000000,
        "Times New Roman"@,
        0x4050000000000000,
        "#ffff00"@,
        false,
        true,
        "slide"@,
        0x3ff0000000000000,
    )
}

/// The "Worship" template: dark brown background at 0.8 opacity, beige 68pt
/// Open Sans with shadow, 0.3-second fades.
pub open spec fn is_worship_template(t: MedleyTemplate) -> bool {
    is_template(
        t,
        "Worship"@,
        "#2c1810"@,
        0x3fe999999999999a,
        "Open Sans"@,
        0x4051000000000000,
        "#f5f5dc"@,
        true,
        false,
        "fade"@,
        0x3fd3333333333333,
    )
}

/// Whether `t` is the predefined template found under `name`.
pub open spec fn is_template_for(name: Seq<char>, t: MedleyTemplate) -> bool {
    if name == "modern"@ {
        is_modern_template(t)
    } else if name == "classic"@ {
        is_classic_template(t)
    } else {
        name == "worship"@ && is_worship_template(t)
    }
}

/// The template with the given settings.
fn make_template(
    name: &str,
    background: &str,
    opacity: u64,
    font: &str,
    size: u64,
    color: &str,
    shadow: bool,
    outline: bool,
    transition: &str,
    duration: u64,
) -> (t: MedleyTemplate)
    ensures
        is_template(
            t,
            name@,
            background@,
            opacity,
            font@,
            size,
            color@,
            shadow,
            outline,
            transition@,
            duration,
        ),
{
    MedleyTemplate {
        name: String::from_str(name),
        background: Some(
            BackgroundSettings {
                color: Some(String::from_str(background)),
                image_path: None,
                opacity: Some(opacity),
            },
        ),
        text_format: Some(
            TextFormatSettings {
                font_family: Some(String::from_str(font)),
                font_size: Some(size),
                color: Some(String::from_str(color)),
                shadow: Some(shadow),
                outline: Some(outline),
            },
        ),
        transitions: Some(
            TransitionSettings {
                default_transition: Some(String::from_str(transition)),
                transition_duration: Some(duration),
                auto_advance: Some(false),
            },
        ),
    }
}

/// Every listed template name finds a template, and every name that finds a
/// template is listed.
pub proof fn lemma_listed_names_find_templates(name: Seq<char>)
    ensures
        template_names().contains(name) <==> is_template_name(name),
{
    if is_template_name(name) {
        if name == "modern"@ {
            assert(template_names()[0] == name);
        } else if name == "classic"@ {
            assert(template_names()[1] == name);
        } else {
            assert(template_names()[2] == name);
        }
    }
}

/// Source of the predefined medley templates.
pub struct TemplateManager;

impl TemplateManager {
    /// A new template manager.
    pub fn new() -> (m: Self) {
        TemplateManager
    }

    /// The names of all available templates.
    pub fn list_templates(&self) -> (r: Vec<&'static str>)
        ensures
            r@.len() == template_names().len(),
            forall|i: int| 0 <= i < r@.len() ==> (#[trigger] r@[i])@ == template_names()[i],
    {
        let mut r: Vec<&'static str> = Vec::new();
        r.push("modern");
        r.push("classic");
        r.push("worship");
        r
    }

    /// The template found under `name`, if there is one.
    pub fn get_template(&self, name: &str) -> (r: Option<MedleyTemplate>)
        ensures
            r is Some <==> is_template_name(name@),
            r matches Some(t) ==> is_template_for(name@, t),
    {
        if same_text(name, "modern") {
            Some(self.create_modern_template())
        } else if same_text(name, "classic") {
            Some(self.create_classic_template())
        } else if same_text(name, "worship") {
            Some(self.create_worship_template())
        } else {
            None
        }
    }

    fn create_modern_template(&self) -> (t: MedleyTemplate)
        ensures
            is_modern_template(t),
    {
        make_template(
            "Modern",
            "#1a1a1a",
            0x3ff0000000000000,
            "Helvetica Neue",
            0x4052000000000000,
            "#ffffff",
            true,
            false,
            "fade",
            0x3fe0000000000000,
        )
    }

    fn create_classic_template(&self) -> (t: MedleyTemplate)
        ensures
            is_classic_template(t),
    {
        make_template(
            "Classic",
            "#000080",
            0x3ff0000000000000,
            "Times New Roman",
            0x4050000000000000,
            "#ffff00",
            false,
            true,
            "slide",
            0x3ff0000000000000,
        )
    }

    fn create_worship_template(&self) -> (t: MedleyTemplate)
        ensures
            is_worship_template(t),
    {
        make_template(
            "Worship",
            "#2c1810",
            0x3fe999999999999a,
            "Open Sans",
            0x4051000000000000,
            "#f5f5dc",
            true,
            false,
            "fade",
            0x3fd3333333333333,
        )
    }
}

} // verus!
