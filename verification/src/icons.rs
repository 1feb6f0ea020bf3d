//! Which picture stands beside a category label.

use crate::text::{chars_of, seq_eq};
use vstd::prelude::*;

verus! {

/// The picture beside a category label: one for each label that a catalog
/// can list, and one for every other text.
#[derive(Debug, Clone, Copy, PartialEq, Eq, Structural)]
pub enum CategoryIcon {
    Recent,
    Utilities,
    Development,
    Network,
    AudioVideo,
    Graphics,
    System,
    Office,
    Games,
    Education,
    Settings,
    Other,
}

/// The picture beside a label. Labels are told apart letter by letter, case
/// included.
pub open spec fn icon_of(category: Seq<char>) -> CategoryIcon {
    if category == "Recent"@ {
        CategoryIcon::Recent
    } else if category == "Utilities"@ {
        CategoryIcon::Utilities
    } else if category == "Development"@ {
        CategoryIcon::Development
    } else if category == "Network"@ {
        CategoryIcon::Network
    } else if category == "Audio/Video"@ {
        CategoryIcon::AudioVideo
    } else if category == "Graphics"@ {
        CategoryIcon::Graphics
    } else if category == "System"@ {
        CategoryIcon::System
    } else if category == "Office"@ {
        CategoryIcon::Office
    } else if category == "Games"@ {
        CategoryIcon::Games
    } else if category == "Education"@ {
        CategoryIcon::Education
    } else if category == "Settings"@ {
        CategoryIcon::Settings
    } else {
        CategoryIcon::Other
    }
}

/// The picture beside a category label.
pub fn category_icon(category: &str) -> (r: CategoryIcon)
    ensures
        r == icon_of(category@),
{
    let c = chars_of(category);
    if seq_eq(&c, &chars_of("Recent")) {
        CategoryIcon::Recent
    } else if seq_eq(&c, &chars_of("Utilities")) {
        CategoryIcon::Utilities
    } else if seq_eq(&c, &chars_of("Development")) {
        CategoryIcon::Development
    } else if seq_eq(&c, &chars_of("Network")) {
        CategoryIcon::Network
    } else if seq_eq(&c, &chars_of("Audio/Video")) {
        CategoryIcon::AudioVideo
    } else if seq_eq(&c, &chars_of("Graphics")) {
        CategoryIcon::Graphics
    } else if seq_eq(&c, &chars_of("System")) {
        CategoryIcon::System
    } else if seq_eq(&c, &chars_of("Office")) {
        CategoryIcon::Office
    } else if seq_eq(&c, &chars_of("Games")) {
        CategoryIcon::Games
    } else if seq_eq(&c, &chars_of("Education")) {
        CategoryIcon::Education
    } else if seq_eq(&c, &chars_of("Settings")) {
        CategoryIcon::Settings
    } else {
        CategoryIcon::Other
    }
}

} // verus!
