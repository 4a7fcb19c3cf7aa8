//! The ProPresenter song model and the parser that extracts songs from the
//! bytes of a presentation file.

use vstd::prelude::*;
use vstd::utf8::{decode_utf8, valid_utf8};

use crate::text::{
    ascii_lowercase, chars_of, collapse_spaces, collapse_white_space, decimal, decimal_chars,
    is_loosely_spaced, is_spaced_words, is_title_word_char, is_white_space, join_with,
    lemma_collapse_fixes_spaced, lemma_collapse_keeps_words, lemma_collapse_spaced,
    lemma_join_push, lemma_remove_all_absent, lemma_replace_absent, lemma_words_non_white,
    lemma_words_of_join,
    lowercase_ascii, occurs, occurs_in, push_all, remove_all, remove_occurrences, replace_char,
    replace_chars, split_words, string_from_chars, words,
};

verus! {

broadcast use vstd::string::group_string_axioms;

/// A complete ProPresenter song or presentation.
#[derive(Debug, Clone)]
pub struct ProPresenterSong {
    /// Song title.
    pub title: String,
    /// Unique identifier for the song.
    pub uuid: String,
    /// Version information, if known.
    pub version: Option<String>,
    /// The slide groups (verses, chorus, ...), in order.
    pub slide_groups: Vec<SlideGroup>,
    /// Media assets referenced by the presentation.
    pub media_assets: Vec<MediaAsset>,
    /// Song metadata (author, copyright, ...).
    pub metadata: SongMetadata,
}

/// A group of slides, such as "Verse 1" or "Chorus".
#[derive(Debug, Clone)]
pub struct SlideGroup {
    /// Group name.
    pub name: String,
    /// Unique identifier for this group.
    pub uuid: String,
    /// Slides within this group.
    pub slides: Vec<Slide>,
    /// Color or styling information.
    pub color: Option<String>,
}

/// One slide within a group.
#[derive(Debug, Clone)]
pub struct Slide {
    /// Unique identifier for this slide.
    pub uuid: String,
    /// Text elements on this slide.
    pub text_elements: Vec<TextElement>,
    /// Plain text content, for search and analysis.
    pub plain_text: Option<String>,
    /// Background information.
    pub background: Option<SlideBackground>,
}

/// A text element on a slide.
#[derive(Debug, Clone)]
pub struct TextElement {
    /// Unique identifier.
    pub uuid: String,
    /// Text content, possibly with RTF formatting.
    pub text: String,
    /// Plain text version.
    pub plain_text: String,
    /// Position and size.
    pub bounds: ElementBounds,
    /// Text formatting.
    pub formatting: TextFormatting,
}

/// Position and size of an element. Each field holds the bit pattern of an
/// IEEE-754 binary64 number (`f64::to_bits`).
#[derive(Debug, Clone)]
pub struct ElementBounds {
    pub x: u64,
    pub y: u64,
    pub width: u64,
    pub height: u64,
}

/// Text formatting. `font_size` holds the bit pattern of an IEEE-754
/// binary64 number (`f64::to_bits`).
#[derive(Debug, Clone)]
pub struct TextFormatting {
    pub font_family: Option<String>,
    pub font_size: Option<u64>,
    pub color: Option<String>,
    pub bold: bool,
    pub italic: bool,
}

/// Background of a slide.
#[derive(Debug, Clone)]
pub struct SlideBackground {
    pub background_type: BackgroundType,
    pub color: Option<String>,
    pub image_path: Option<String>,
}

/// Kind of slide background.
#[derive(Debug, Clone, Copy, PartialEq, Eq, Structural)]
pub enum BackgroundType {
    Color,
    Image,
    Video,
    /// No background (serialised as `None` by the application).
    NoBackground,
}

/// A media asset (image, video or audio).
#[derive(Debug, Clone)]
pub struct MediaAsset {
    /// Asset UUID.
    pub uuid: String,
    /// File path.
    pub file_path: String,
    /// Relative path, if different from `file_path`.
    pub relative_path: Option<String>,
    /// Kind of media.
    pub media_type: MediaType,
    /// File size in bytes.
    pub file_size: Option<u64>,
}

/// Kind of media asset.
#[derive(Debug, Clone, Copy, PartialEq, Eq, Structural)]
pub enum MediaType {
    Image,
    Video,
    Audio,
    Unknown,
}

/// Song metadata.
#[derive(Debug, Clone)]
pub struct SongMetadata {
    pub author: Option<String>,
    pub copyright: Option<String>,
    pub ccli_number: Option<String>,
    pub key: Option<String>,
    pub tempo: Option<String>,
    pub notes: Option<String>,
    pub tags: Vec<String>,
}

// ---------------------------------------------------------------------------
// UUIDs

/// Whether `c` is a digit or a capital letter from `A` to `F`.
pub open spec fn is_upper_hex_digit(c: char) -> bool {
    ('0' <= c && c <= '9') || ('A' <= c && c <= 'F')
}

/// Whether `u` is a UUID in canonical upper-case form: 36 characters, dashes
/// at positions 8, 13, 18 and 23, upper-case hex digits everywhere else.
pub open spec fn is_uuid_text(u: Seq<char>) -> bool {
    &&& u.len() == 36
    &&& forall|k: int|
        0 <= k < 36 ==> if k == 8 || k == 13 || k == 18 || k == 23 {
            #[trigger] u[k] == '-'
        } else {
            is_upper_hex_digit(u[k])
        }
}

/// Whether a UUID starts at position `i` of `s`.
pub open spec fn uuid_at(s: Seq<char>, i: int) -> bool {
    0 <= i && i + 36 <= s.len() && is_uuid_text(s.subrange(i, i + 36))
}

/// Whether `found` is the first UUID of `s`: `None` when `s` holds none, and
/// otherwise the UUID at the smallest position that starts one.
pub open spec fn is_first_uuid(s: Seq<char>, found: Option<Seq<char>>) -> bool {
    match found {
        None => forall|i: int| !#[trigger] uuid_at(s, i),
        Some(u) => exists|i: int|
            #[trigger] uuid_at(s, i) && u == s.subrange(i, i + 36) && forall|j: int|
                0 <= j < i ==> !#[trigger] uuid_at(s, j),
    }
}

/// The regular expression that matches a UUID in canonical upper-case form.
pub open spec fn uuid_pattern() -> Seq<char> {
    "[0-9A-F]{8}-[0-9A-F]{4}-[0-9A-F]{4}-[0-9A-F]{4}-[0-9A-F]{12}"@
}

/// The UUID used when a file holds none.
pub open spec fn nil_uuid() -> Seq<char> {
    "00000000-0000-0000-0000-000000000000"@
}

/// The view of an optional string.
pub open spec fn opt_text(o: Option<String>) -> Option<Seq<char>> {
    match o {
        Some(s) => Some(s@),
        None => None,
    }
}

/// What `regex::Regex::new(pattern)` followed by `find(haystack)` yields, as
/// text: the leftmost-first match, or `None` when the pattern does not
/// compile or nothing matches.
pub uninterp spec fn regex_first_match(pattern: Seq<char>, haystack: Seq<char>) -> Option<
    Seq<char>,
>;

/// Compiles `pattern` with `regex::Regex::new` and returns the text
/// (`regex::Match::as_str`) of the match that `regex::Regex::find` reports on
/// `haystack`. The three calls share one trusted item because a compiled
/// `Regex` is opaque: only the pattern it came from ties the search result
/// to anything. The result is named
/// `regex_first_match`. For the UUID pattern the contract states the result:
/// the regex crate reports the leftmost-first match, and that pattern matches
/// exactly the 36-character canonical upper-case UUIDs, so the match is the
/// UUID at the smallest position. Nothing is stated of other patterns.
#[verifier::external_body]
fn regex_find(pattern: &str, haystack: &str) -> (r: Option<String>)
    ensures
        opt_text(r) == regex_first_match(pattern@, haystack@),
        pattern@ == uuid_pattern() ==> is_first_uuid(haystack@, opt_text(r)),
{
    let re = match regex::Regex::new(pattern) {
        Ok(re) => re,
        Err(_) => return None,
    };
    match re.find(haystack) {
        Some(m) => Some(m.as_str().to_string()),
        None => None,
    }
}

// ---------------------------------------------------------------------------
// Titles

/// The title made from a file name: every ".pro" removed (left to right,
/// without overlap), underscores and hyphens turned into spaces, then the
/// words joined by single spaces.
pub open spec fn clean_title(name: Seq<char>) -> Seq<char> {
    collapse_white_space(replace_char(replace_char(remove_all(name, ".pro"@), '_', ' '), '-', ' '))
}

// ---------------------------------------------------------------------------
// Slide groups

/// The group names the parser looks for, in the order it looks for them.
pub open spec fn group_keywords() -> Seq<Seq<char>> {
    seq![
        "Verse"@,
        "Chorus"@,
        "Bridge"@,
        "Intro"@,
        "Outro"@,
        "Tag"@,
        "Pre-Chorus"@,
        "Refrain"@,
        "Instrumental"@,
        "Solo"@,
    ]
}

/// The keywords of `ks` that occur in `text`, in the order of `ks`.
pub open spec fn keywords_found(text: Seq<char>, ks: Seq<Seq<char>>) -> Seq<Seq<char>>
    decreases ks.len(),
{
    if ks.len() == 0 {
        seq![]
    } else {
        let found = keywords_found(text, ks.drop_last());
        if occurs_in(text, ks.last()) {
            found.push(ks.last())
        } else {
            found
        }
    }
}

/// Whether `g` is the group made for `keyword`, the `index`-th group found:
/// named "<keyword> 1", with one slide whose plain text is
/// "[<keyword> content]" and no text elements, background or color.
pub open spec fn is_keyword_group(g: SlideGroup, keyword: Seq<char>, index: nat) -> bool {
    &&& g.name@ == keyword + " 1"@
    &&& g.uuid@ == "extracted-"@ + ascii_lowercase(keyword) + "-"@ + decimal(index)
    &&& g.slides@.len() == 1
    &&& g.slides@[0].uuid@ == "slide-"@ + ascii_lowercase(keyword) + "-1"@
    &&& g.slides@[0].text_elements@.len() == 0
    &&& opt_text(g.slides@[0].plain_text) == Some("["@ + keyword + " content]"@)
    &&& g.slides@[0].background is None
    &&& g.color is None
}

/// Whether `g` is the group used when no keyword occurs: "Content", with one
/// placeholder slide.
pub open spec fn is_default_group(g: SlideGroup) -> bool {
    &&& g.name@ == "Content"@
    &&& g.uuid@ == "default-content-group"@
    &&& g.slides@.len() == 1
    &&& g.slides@[0].uuid@ == "default-slide-1"@
    &&& g.slides@[0].text_elements@.len() == 0
    &&& opt_text(g.slides@[0].plain_text) == Some("[Song content - parsing in progress]"@)
    &&& g.slides@[0].background is None
    &&& g.color is None
}

/// Whether `gs` are the slide groups extracted from `text`: one group per
/// keyword that occurs in the text, in keyword order; or the default group
/// alone when none occurs.
pub open spec fn is_group_list(text: Seq<char>, gs: Seq<SlideGroup>) -> bool {
    let found = keywords_found(text, group_keywords());
    if found.len() > 0 {
        &&& gs.len() == found.len()
        &&& forall|i: int| 0 <= i < gs.len() ==> is_keyword_group(#[trigger] gs[i], found[i], i as nat)
    } else {
        &&& gs.len() == 1
        &&& is_default_group(gs[0])
    }
}

fn group_keyword(i: usize) -> (k: &'static str)
    requires
        i < 10,
    ensures
        k@ == group_keywords()[i as int],
{
    if i == 0 {
        "Verse"
    } else if i == 1 {
        "Chorus"
    } else if i == 2 {
        "Bridge"
    } else if i == 3 {
        "Intro"
    } else if i == 4 {
        "Outro"
    } else if i == 5 {
        "Tag"
    } else if i == 6 {
        "Pre-Chorus"
    } else if i == 7 {
        "Refrain"
    } else if i == 8 {
        "Instrumental"
    } else {
        "Solo"
    }
}

fn keyword_group(keyword: &str, index: usize) -> (g: SlideGroup)
    ensures
        is_keyword_group(g, keyword@, index as nat),
{
    let lower = string_from_chars(&lowercase_ascii(&chars_of(keyword)));
    let mut name = String::from_str(keyword);
    name.append(" 1");
    let mut uuid = String::from_str("extracted-");
    uuid.append(lower.as_str());
    uuid.append("-");
    uuid.append(string_from_chars(&decimal_chars(index)).as_str());
    let mut slide_uuid = String::from_str("slide-");
    slide_uuid.append(lower.as_str());
    slide_uuid.append("-1");
    let mut plain = String::from_str("[");
    plain.append(keyword);
    plain.append(" content]");
    let slide = Slide {
        uuid: slide_uuid,
        text_elements: Vec::new(),
        plain_text: Some(plain),
        background: None,
    };
    let mut slides: Vec<Slide> = Vec::new();
    slides.push(slide);
    SlideGroup { name, uuid, slides, color: None }
}

fn default_group() -> (g: SlideGroup)
    ensures
        is_default_group(g),
{
    let slide = Slide {
        uuid: String::from_str("default-slide-1"),
        text_elements: Vec::new(),
        plain_text: Some(String::from_str("[Song content - parsing in progress]")),
        background: None,
    };
    let mut slides: Vec<Slide> = Vec::new();
    slides.push(slide);
    SlideGroup {
        name: String::from_str("Content"),
        uuid: String::from_str("default-content-group"),
        slides,
        color: None,
    }
}

// ---------------------------------------------------------------------------
// Songs

/// Name for what `String::from_utf8_lossy` makes of `bytes`: the UTF-8
/// decoding of the bytes, each invalid sequence replaced by U+FFFD.
pub uninterp spec fn utf8_lossy(bytes: Seq<u8>) -> Seq<char>;

/// Decodes `bytes` with `String::from_utf8_lossy`. The result is named
/// `utf8_lossy`; as its documentation says, valid UTF-8 decodes to the text
/// it encodes. Which replacement characters stand for invalid input is not
/// stated.
#[verifier::external_body]
fn decode_lossy(bytes: &[u8]) -> (s: String)
    ensures
        s@ == utf8_lossy(bytes@),
        valid_utf8(bytes@) ==> s@ == decode_utf8(bytes@),
{
    String::from_utf8_lossy(bytes).into_owned()
}

/// Name for what `std::path::Path::file_stem` gives for the path `path`, as
/// text: the final component without its last extension, `None` when the
/// path has no file name.
pub uninterp spec fn path_file_stem(path: Seq<char>) -> Option<Seq<char>>;

/// The position of the last `c` in `s`, or -1 when `c` does not occur.
pub open spec fn last_index_of(s: Seq<char>, c: char) -> int
    decreases s.len(),
{
    if s.len() == 0 {
        -1
    } else if s.last() == c {
        s.len() - 1
    } else {
        last_index_of(s.drop_last(), c)
    }
}

/// The part of `path` after its last '/', the whole path when it has none.
pub open spec fn last_segment(path: Seq<char>) -> Seq<char> {
    path.skip(last_index_of(path, '/') + 1)
}

/// The stem of a file name: the part before its last '.', or the whole name
/// when it has no '.' or its only '.' is its first character.
pub open spec fn file_name_stem(name: Seq<char>) -> Seq<char> {
    let d = last_index_of(name, '.');
    if d <= 0 {
        name
    } else {
        name.take(d)
    }
}

/// Whether `path` ends in a plain file name: the part after its last '/' is
/// not empty, not "." and not "..", and the path holds no '\\' or ':' (which
/// some platforms read as separators or prefixes).
pub open spec fn is_plain_path(path: Seq<char>) -> bool {
    let name = last_segment(path);
    &&& name.len() > 0
    &&& name != "."@
    &&& name != ".."@
    &&& forall|k: int| 0 <= k < path.len() ==> #[trigger] path[k] != '\\' && path[k] != ':'
}

/// The file stem of `path`, by `std::path::Path::file_stem`. The result is
/// named `path_file_stem`. For a path that ends in a plain file name the
/// result is stated, following the documentation of `Path::components`
/// (repeated separators and inner "." are dropped), `Path::file_name` (the
/// final component) and `Path::file_stem` (the whole name when it has no
/// '.' or begins with its only '.', otherwise the part before the final
/// '.'). Other paths (ending in '/', ".", "..", or with platform prefixes)
/// are only named.
#[verifier::external_body]
fn file_stem(path: &str) -> (r: Option<String>)
    ensures
        opt_text(r) == path_file_stem(path@),
        is_plain_path(path@) ==> opt_text(r) == Some(file_name_stem(last_segment(path@))),
{
    match std::path::Path::new(path).file_stem() {
        Some(stem) => match stem.to_str() {
            Some(text) => Some(text.to_string()),
            None => None,
        },
        None => None,
    }
}

/// The name a song title is made from: the file stem, or "Unknown" when
/// there is none.
pub open spec fn title_source(file_stem: Option<Seq<char>>) -> Seq<char> {
    match file_stem {
        Some(s) => s,
        None => "Unknown"@,
    }
}

/// The view of an optional text slice.
pub open spec fn opt_str(o: Option<&str>) -> Option<Seq<char>> {
    match o {
        Some(s) => Some(s@),
        None => None,
    }
}

/// Whether `u` is the song UUID for `text`: its first UUID, or the nil UUID
/// when it holds none.
pub open spec fn is_song_uuid(text: Seq<char>, u: Seq<char>) -> bool {
    ||| is_first_uuid(text, Some(u))
    ||| (is_first_uuid(text, None) && u == nil_uuid())
}

/// Whether every metadata field is absent and there are no tags.
pub open spec fn is_empty_metadata(m: SongMetadata) -> bool {
    &&& m.author is None
    &&& m.copyright is None
    &&& m.ccli_number is None
    &&& m.key is None
    &&& m.tempo is None
    &&& m.notes is None
    &&& m.tags@.len() == 0
}

/// Whether `song` is the song read from the text `text` of a file whose
/// title comes from `title_name`.
pub open spec fn is_parsed_song(song: ProPresenterSong, text: Seq<char>, title_name: Seq<char>) -> bool {
    &&& song.title@ == clean_title(title_name)
    &&& is_song_uuid(text, song.uuid@)
    &&& opt_text(song.version) == Some("7.0"@)
    &&& is_group_list(text, song.slide_groups@)
    &&& song.media_assets@.len() == 0
    &&& is_empty_metadata(song.metadata)
}

/// The number of words a slide preview shows.
pub open spec fn preview_word_limit() -> nat {
    8
}

/// The preview of a slide text: its first eight words joined by single
/// spaces, followed by "..." when the text has more words.
pub open spec fn preview(s: Seq<char>) -> Seq<char> {
    let ws = words(s);
    if ws.len() > preview_word_limit() {
        join_with(ws.take(preview_word_limit() as int), seq![' ']) + "..."@
    } else {
        join_with(ws, seq![' '])
    }
}

/// The preview of a slide text: its first eight words joined by single
/// spaces, followed by "..." when the text has more words.
pub fn text_preview(text: &str) -> (r: String)
    ensures
        r@ == preview(text@),
{
    let ws = split_words(&chars_of(text));
    let k: usize = if ws.len() > 8 { 8 } else { ws.len() };
    let ghost all = words(text@);
    let mut out: Vec<char> = Vec::new();
    let mut i: usize = 0;
    while i < k
        invariant
            k <= ws@.len(),
            ws@.len() == all.len(),
            forall|j: int| 0 <= j < ws@.len() ==> (#[trigger] ws@[j])@ == all[j],
            i <= k,
            out@ == join_with(all.take(i as int), seq![' ']),
        decreases k - i,
    {
        proof {
            assert(all.take(i + 1) == all.take(i as int).push(all[i as int]));
            lemma_join_push(all.take(i as int), seq![' '], all[i as int]);
        }
        if i > 0 {
            out.push(' ');
        }
        push_all(&mut out, &ws[i]);
        i = i + 1;
    }
    let mut r = string_from_chars(&out);
    if ws.len() > 8 {
        r.append("...");
    } else {
        assert(all.take(k as int) == all);
    }
    r
}

// ---------------------------------------------------------------------------
// Laws

/// A cleaned title holds no underscore or hyphen, and its white space is
/// single spaces between words, none at either end.
pub proof fn lemma_clean_title_is_spaced_words(name: Seq<char>)
    ensures
        is_spaced_words(clean_title(name)),
{
    let r = replace_char(replace_char(remove_all(name, ".pro"@), '_', ' '), '-', ' ');
    let r1 = replace_char(remove_all(name, ".pro"@), '_', ' ');
    assert forall|k: int| 0 <= k < r.len() && !is_white_space(#[trigger] r[k]) implies r[k] != '_' && r[k] != '-' by {
        assert(r1[k] != '_');
    }
    lemma_collapse_spaced(r);
}

/// A reported first UUID is a canonical UUID that occurs in the text.
pub proof fn lemma_first_uuid_occurs(text: Seq<char>, u: Seq<char>)
    requires
        is_first_uuid(text, Some(u)),
    ensures
        is_uuid_text(u),
        occurs_in(text, u),
{
    let i = choose|i: int| #[trigger] uuid_at(text, i) && u == text.subrange(i, i + 36) && forall|j: int| 0 <= j < i ==> !#[trigger] uuid_at(text, j);
    assert(text.subrange(i, i + u.len()) == u);
}

/// A song's UUID is always a canonical UUID: the first one of the text, or
/// the nil UUID.
pub proof fn lemma_song_uuid_is_uuid(text: Seq<char>, u: Seq<char>)
    requires
        is_song_uuid(text, u),
    ensures
        is_uuid_text(u),
{
    if is_first_uuid(text, Some(u)) {
        lemma_first_uuid_occurs(text, u);
    } else {
        reveal_strlit("00000000-0000-0000-0000-000000000000");
    }
}

/// The keywords found in a text are those of the list that occur in it.
pub proof fn lemma_keywords_found_contains(text: Seq<char>, ks: Seq<Seq<char>>, k: Seq<char>)
    ensures
        keywords_found(text, ks).contains(k) <==> (ks.contains(k) && occurs_in(text, k)),
        keywords_found(text, ks).len() <= ks.len(),
    decreases ks.len(),
{
    if ks.len() > 0 {
        let init = ks.drop_last();
        lemma_keywords_found_contains(text, init, k);
        let f = keywords_found(text, init);
        if ks.contains(k) && !init.contains(k) {
            assert(k == ks.last()) by {
                let j = choose|j: int| 0 <= j < ks.len() && ks[j] == k;
                if j < ks.len() - 1 {
                    assert(init[j] == k);
                }
            }
        }
        if init.contains(k) {
            let j = choose|j: int| 0 <= j < init.len() && init[j] == k;
            assert(ks[j] == k);
        }
        if occurs_in(text, ks.last()) {
            assert(f.push(ks.last()).last() == ks.last());
            if f.contains(k) {
                let j = choose|j: int| 0 <= j < f.len() && f[j] == k;
                assert(f.push(ks.last())[j] == k);
            }
            if f.push(ks.last()).contains(k) && k != ks.last() {
                let j = choose|j: int| 0 <= j < f.len() + 1 && f.push(ks.last())[j] == k;
                assert(f[j] == k);
            }
        }
    }
}

/// Slide extraction always yields between one and ten groups, and for every
/// group keyword that occurs in the text there is a group named
/// "<keyword> 1".
pub proof fn lemma_group_list_covers_keywords(text: Seq<char>, gs: Seq<SlideGroup>, k: Seq<char>)
    requires
        is_group_list(text, gs),
    ensures
        1 <= gs.len() <= group_keywords().len(),
        group_keywords().contains(k) && occurs_in(text, k) ==> exists|i: int|
            0 <= i < gs.len() && (#[trigger] gs[i]).name@ == k + " 1"@,
{
    lemma_keywords_found_contains(text, group_keywords(), k);
    let found = keywords_found(text, group_keywords());
    if group_keywords().contains(k) && occurs_in(text, k) {
        let i = choose|i: int| 0 <= i < found.len() && found[i] == k;
        assert(is_keyword_group(gs[i], found[i], i as nat));
    }
}

/// The number of slides over all groups of `gs`.
pub open spec fn slide_total(gs: Seq<SlideGroup>) -> int
    decreases gs.len(),
{
    if gs.len() == 0 {
        0
    } else {
        slide_total(gs.drop_last()) + gs.last().slides@.len()
    }
}

/// The number of slides over all groups of the song. It is counted in
/// `u128`, which holds the sum of any number of `usize` group sizes.
pub fn total_slide_count(song: &ProPresenterSong) -> (r: u128)
    ensures
        r == slide_total(song.slide_groups@),
{
    let gs = &song.slide_groups;
    let n = gs.len();
    let mut total: u128 = 0;
    let mut i: usize = 0;
    while i < n
        invariant
            n == gs@.len(),
            i <= n,
            total == slide_total(gs@.take(i as int)),
            total <= i * (usize::MAX as int),
        decreases n - i,
    {
        let len = gs[i].slides.len();
        assert(gs@.take(i + 1).drop_last() == gs@.take(i as int));
        assert(total + len <= (i + 1) * (usize::MAX as int)) by (nonlinear_arith)
            requires
                total <= i * (usize::MAX as int),
                len <= usize::MAX,
        ;
        assert((i + 1) * (usize::MAX as int) <= (usize::MAX as int) * (usize::MAX as int))
            by (nonlinear_arith)
            requires
                i + 1 <= usize::MAX,
        ;
        assert((usize::MAX as int) * (usize::MAX as int) <= u128::MAX) by (nonlinear_arith)
            requires
                usize::MAX <= u64::MAX,
        ;
        total = total + len as u128;
        i = i + 1;
    }
    assert(gs@.take(n as int) == gs@);
    total
}

/// A name that already is words of title characters separated by single
/// spaces, with no ".pro" in it, is its own title.
pub proof fn lemma_spaced_name_is_its_own_title(name: Seq<char>)
    requires
        is_spaced_words(name),
        !occurs_in(name, ".pro"@),
    ensures
        clean_title(name) == name,
{
    lemma_remove_all_absent(name, ".pro"@);
    assert forall|k: int| 0 <= k < name.len() implies #[trigger] name[k] != '_' && name[k] != '-' by {
        assert(name[k] == ' ' || is_title_word_char(name[k]));
    }
    lemma_replace_absent(name, '_', ' ');
    lemma_replace_absent(name, '-', ' ');
    assert(is_white_space(' '));
    assert(is_loosely_spaced(name)) by {
        assert forall|k: int| 0 <= k < name.len() implies (#[trigger] name[k] == ' ' || !is_white_space(name[k])) by {
            assert(name[k] == ' ' || is_title_word_char(name[k]));
        }
    }
    lemma_collapse_fixes_spaced(name);
}

/// The title has exactly the words of the file name once every ".pro" is
/// removed and underscores and hyphens are read as spaces.
pub proof fn lemma_clean_title_keeps_words(name: Seq<char>)
    ensures
        words(clean_title(name)) == words(
            replace_char(replace_char(remove_all(name, ".pro"@), '_', ' '), '-', ' '),
        ),
{
    lemma_collapse_keeps_words(replace_char(replace_char(remove_all(name, ".pro"@), '_', ' '), '-', ' '));
}

/// The preview of a text with at most eight words is the text with its
/// white space collapsed: every word kept whole, single spaces between.
pub proof fn lemma_short_preview_is_collapsed_text(s: Seq<char>)
    requires
        words(s).len() <= 8,
    ensures
        preview(s) == collapse_white_space(s),
        words(preview(s)) == words(s),
{
    lemma_collapse_keeps_words(s);
}

/// The preview of a text with more than eight words is its first eight
/// words, each whole and separated by single spaces, followed by "...".
pub proof fn lemma_long_preview_is_first_eight_words(s: Seq<char>)
    requires
        words(s).len() > 8,
    ensures
        preview(s).len() >= 3,
        preview(s).skip(preview(s).len() - 3) == "..."@,
        words(preview(s).take(preview(s).len() - 3)) == words(s).take(8),
{
    let ws = words(s).take(8);
    lemma_words_non_white(s);
    assert forall|i: int| 0 <= i < ws.len() implies (#[trigger] ws[i]).len() > 0 by {
        assert(ws[i] == words(s)[i]);
    }
    assert forall|i: int, k: int| 0 <= i < ws.len() && 0 <= k < ws[i].len() implies !is_white_space(#[trigger] ws[i][k]) by {
        assert(ws[i] == words(s)[i]);
    }
    lemma_words_of_join(ws);
    let j = join_with(ws, seq![' ']);
    reveal_strlit("...");
    assert(preview(s) == j + "..."@);
    assert((j + "..."@).take(j.len() as int) == j);
    assert((j + "..."@).skip(j.len() as int) == "..."@);
}

/// A preview depends only on the words of the text: collapsing the white
/// space first does not change it.
pub proof fn lemma_preview_sees_only_words(s: Seq<char>)
    ensures
        preview(s) == preview(collapse_white_space(s)),
{
    lemma_collapse_keeps_words(s);
}

/// The slide total of a single group is its number of slides.
pub proof fn lemma_slide_total_single(g: SlideGroup)
    ensures
        slide_total(seq![g]) == g.slides@.len(),
{
    assert(seq![g].drop_last() == Seq::<SlideGroup>::empty());
    assert(seq![g].last() == g);
    assert(slide_total(Seq::<SlideGroup>::empty()) == 0);
}

/// The slide total of two runs of groups is the sum of their totals.
pub proof fn lemma_slide_total_concat(a: Seq<SlideGroup>, b: Seq<SlideGroup>)
    ensures
        slide_total(a + b) == slide_total(a) + slide_total(b),
    decreases b.len(),
{
    if b.len() == 0 {
        assert(a + b == a);
    } else {
        lemma_slide_total_concat(a, b.drop_last());
        assert((a + b).drop_last() == a + b.drop_last());
        assert((a + b).last() == b.last());
    }
}

/// The last index of a character is not moved by appending text without it.
pub proof fn lemma_last_index_append(s: Seq<char>, t: Seq<char>, c: char)
    requires
        forall|k: int| 0 <= k < t.len() ==> #[trigger] t[k] != c,
    ensures
        last_index_of(s + t, c) == last_index_of(s, c),
    decreases t.len(),
{
    if t.len() == 0 {
        assert(s + t == s);
    } else {
        assert((s + t).drop_last() == s + t.drop_last());
        assert((s + t).last() == t[t.len() - 1]);
        lemma_last_index_append(s, t.drop_last(), c);
    }
}

/// A file name without '/' is its own last segment, also after a directory
/// and a '/'.
pub proof fn lemma_last_segment_of_file_name(dir: Seq<char>, name: Seq<char>)
    requires
        forall|k: int| 0 <= k < name.len() ==> #[trigger] name[k] != '/',
    ensures
        last_segment(name) == name,
        last_segment(dir + seq!['/'] + name) == name,
{
    lemma_last_index_append(Seq::<char>::empty(), name, '/');
    assert(Seq::<char>::empty() + name == name);
    assert(name.skip(0) == name);
    let d = dir + seq!['/'];
    assert(d.drop_last() == dir);
    assert(last_index_of(d, '/') == dir.len());
    lemma_last_index_append(d, name, '/');
    assert((d + name).skip(dir.len() + 1int) == name);
}

/// A file named "<base>.pro", where the base holds no '.', '/', '\\' or ':',
/// is a plain path whose stem is the base; so `parse_binary` titles it
/// `clean_title(base)`.
pub proof fn lemma_pro_file_stem(base: Seq<char>)
    requires
        base.len() > 0,
        forall|k: int| 0 <= k < base.len() ==> #[trigger] base[k] != '.' && base[k] != '/' && base[k] != '\\' && base[k] != ':',
    ensures
        is_plain_path(base + ".pro"@),
        file_name_stem(last_segment(base + ".pro"@)) == base,
{
    reveal_strlit(".pro");
    reveal_strlit(".");
    reveal_strlit("..");
    let name = base + ".pro"@;
    assert(".pro"@ == seq!['.', 'p', 'r', 'o']);
    assert forall|k: int| 0 <= k < name.len() implies #[trigger] name[k] != '/' && name[k] != '\\' && name[k] != ':' by {
        if k < base.len() {
            assert(name[k] == base[k]);
        }
    }
    lemma_last_segment_of_file_name(Seq::<char>::empty(), name);
    assert(name.len() > 1);
    assert(name != "."@ && name != ".."@) by {
        assert(name.len() >= 5);
    }
    let n1 = name.drop_last();
    let n2 = n1.drop_last();
    let n3 = n2.drop_last();
    assert(name.last() == 'o');
    assert(n1.last() == 'r');
    assert(n2.last() == 'p');
    assert(n3.last() == '.');
    assert(n3.len() == base.len() + 1);
    assert(last_index_of(n3, '.') == base.len());
    assert(last_index_of(n2, '.') == last_index_of(n3, '.'));
    assert(last_index_of(n1, '.') == last_index_of(n2, '.'));
    assert(last_index_of(name, '.') == last_index_of(n1, '.'));
    assert(last_index_of(name, '.') == base.len());
    assert(name.take(base.len() as int) == base);
}

/// Main parser for ProPresenter files.
pub struct ProPresenterParser;

impl ProPresenterParser {
    /// Clean up a file name to make a proper title.
    pub fn clean_filename_title(filename: &str) -> (r: String)
        ensures
            r@ == clean_title(filename@),
    {
        let chars = chars_of(filename);
        let ext = chars_of(".pro");
        let no_ext = remove_occurrences(&chars, &ext);
        let spaced = replace_chars(&no_ext, '_', ' ');
        let spaced = replace_chars(&spaced, '-', ' ');
        let collapsed = collapse_spaces(&spaced);
        string_from_chars(&collapsed)
    }

    /// Extract the first UUID from the text.
    pub fn extract_first_uuid(data_str: &str) -> (r: Option<String>)
        ensures
            is_first_uuid(data_str@, opt_text(r)),
    {
        regex_find("[0-9A-F]{8}-[0-9A-F]{4}-[0-9A-F]{4}-[0-9A-F]{4}-[0-9A-F]{12}", data_str)
    }

    /// The title, UUID and slide groups of the text of a file whose title
    /// comes from `fallback_title`.
    pub fn basic_info_from_text(data_str: &str, fallback_title: &str) -> (r: (String, String, Vec<SlideGroup>))
        ensures
            r.0@ == clean_title(fallback_title@),
            is_song_uuid(data_str@, r.1@),
            is_group_list(data_str@, r.2@),
    {
        let title = Self::clean_filename_title(fallback_title);
        let uuid = match Self::extract_first_uuid(data_str) {
            Some(u) => u,
            None => String::from_str("00000000-0000-0000-0000-000000000000"),
        };
        let groups = Self::extract_slide_groups(data_str);
        (title, uuid, groups)
    }

    /// Extract the title, UUID and slide groups from the bytes of a file,
    /// decoded as UTF-8 with invalid sequences replaced.
    pub fn extract_basic_info(data: &[u8], fallback_title: &str) -> (r: (String, String, Vec<SlideGroup>))
        ensures
            r.0@ == clean_title(fallback_title@),
            is_song_uuid(utf8_lossy(data@), r.1@),
            is_group_list(utf8_lossy(data@), r.2@),
            valid_utf8(data@) ==> utf8_lossy(data@) == decode_utf8(data@),
    {
        let text = decode_lossy(data);
        Self::basic_info_from_text(text.as_str(), fallback_title)
    }

    /// Build the song read from the bytes of a file with the given file stem.
    pub fn song_from_bytes(data: &[u8], file_stem: Option<&str>) -> (song: ProPresenterSong)
        ensures
            is_parsed_song(song, utf8_lossy(data@), title_source(opt_str(file_stem))),
    {
        let filename: &str = match file_stem {
            Some(s) => s,
            None => "Unknown",
        };
        let (title, uuid, slide_groups) = Self::extract_basic_info(data, filename);
        ProPresenterSong {
            title,
            uuid,
            version: Some(String::from_str("7.0")),
            slide_groups,
            media_assets: Vec::new(),
            metadata: SongMetadata {
                author: None,
                copyright: None,
                ccli_number: None,
                key: None,
                tempo: None,
                notes: None,
                tags: Vec::new(),
            },
        }
    }

    /// Parse the bytes of a ProPresenter file found at `path`.
    pub fn parse_binary(data: &[u8], path: &str) -> (song: ProPresenterSong)
        ensures
            is_parsed_song(song, utf8_lossy(data@), title_source(path_file_stem(path@))),
            is_plain_path(path@) ==> song.title@ == clean_title(file_name_stem(last_segment(path@))),
    {
        let stem = file_stem(path);
        match &stem {
            Some(s) => Self::song_from_bytes(data, Some(s.as_str())),
            None => Self::song_from_bytes(data, None),
        }
    }

    /// Extract the slide groups named in the text: one per group keyword that
    /// occurs, or a single default group when none does.
    pub fn extract_slide_groups(data_str: &str) -> (r: Vec<SlideGroup>)
        ensures
            is_group_list(data_str@, r@),
    {
        let text = chars_of(data_str);
        let mut groups: Vec<SlideGroup> = Vec::new();
        let mut idx: usize = 0;
        while idx < 10
            invariant
                idx <= 10,
                text@ == data_str@,
                groups@.len() == keywords_found(data_str@, group_keywords().take(idx as int)).len(),
                forall|i: int|
                    0 <= i < groups@.len() ==> is_keyword_group(
                        #[trigger] groups@[i],
                        keywords_found(data_str@, group_keywords().take(idx as int))[i],
                        i as nat,
                    ),
            decreases 10 - idx,
        {
            let ghost before = group_keywords().take(idx as int);
            let ghost after = group_keywords().take(idx + 1);
            assert(after.drop_last() == before);
            let keyword = group_keyword(idx);
            assert(after.last() == keyword@);
            if occurs(&text, &chars_of(keyword)) {
                let g = keyword_group(keyword, groups.len());
                groups.push(g);
            }
            idx = idx + 1;
        }
        assert(group_keywords().take(10) == group_keywords());
        if groups.len() == 0 {
            groups.push(default_group());
        }
        groups
    }
}

} // verus!
