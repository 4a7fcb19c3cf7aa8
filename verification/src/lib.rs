//! Song data model and medley assembly for ProPresenter presentations.
//!
//! `propresenter` holds the song model and the parser that reads song data
//! out of presentation files; `medley` holds the medley builder and the
//! predefined templates; `text` holds the character-level text operations
//! both rest on.

pub mod medley;
pub mod propresenter;
pub mod text;

pub use medley::{
    BackgroundSettings, Medley, MedleyBuilder, MedleyTemplate, SlideReference, TemplateManager,
    TextFormatSettings, TransitionSettings,
};
pub use propresenter::{
    BackgroundType, ElementBounds, MediaAsset, MediaType, ProPresenterParser, ProPresenterSong,
    Slide, SlideBackground, SlideGroup, SongMetadata, TextElement, TextFormatting,
};
