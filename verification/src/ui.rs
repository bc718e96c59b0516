//! The few pieces that every mission surface is drawn from.

use vstd::prelude::*;

verus! {

#[derive(Clone, Copy, Debug, PartialEq, Eq, Structural)]
pub enum Color {
    Default,
    Muted,
    Disabled,
    Accent,
    Info,
    Success,
    Warning,
    Error,
    Created,
    Deleted,
}

#[derive(Clone, Copy, Debug, PartialEq, Eq, Structural)]
pub enum IconName {
    ZedAgent,
    Terminal,
    ListTodo,
    Check,
    XCircle,
    GitMergeConflict,
    RotateCw,
}

/// A piece of text and its colour.
pub struct Label {
    pub text: String,
    pub color: Color,
}

impl Label {
    pub fn new(text: String, color: Color) -> (r: Self)
        ensures
            r.text == text,
            r.color == color,
    {
        Label { text, color }
    }

    /// Whether this label reads `text` in `color`.
    pub open spec fn reads(self, text: Seq<char>, color: Color) -> bool {
        self.text@ == text && self.color == color
    }
}

/// The view of an optional fixed text.
pub open spec fn opt_str(s: Option<&'static str>) -> Option<Seq<char>> {
    match s {
        Some(text) => Some(text@),
        None => None,
    }
}

/// A button, with what is said of it where the pointer rests on it.
pub struct Button {
    pub text: &'static str,
    pub tooltip: Option<&'static str>,
}

impl Button {
    pub fn new(text: &'static str, tooltip: Option<&'static str>) -> (r: Self)
        ensures
            r.reads(text@, opt_str(tooltip)),
    {
        Button { text, tooltip }
    }

    /// Whether this button reads `text`, with the tooltip `tooltip`.
    pub open spec fn reads(self, text: Seq<char>, tooltip: Option<Seq<char>>) -> bool {
        self.text@ == text && opt_str(self.tooltip) == tooltip
    }
}

/// A name in English and Chinese.
pub struct BilingualLabel {
    pub english: &'static str,
    pub chinese: &'static str,
}

impl BilingualLabel {
    /// Whether this label reads `english` and `chinese`.
    pub open spec fn reads(self, english: Seq<char>, chinese: Seq<char>) -> bool {
        self.english@ == english && self.chinese@ == chinese
    }
}

/// The name of a section, muted in English and dimmed in Chinese, with an optional note at
/// the right.
pub struct SectionHeader {
    pub title: BilingualLabel,
    pub meta: Option<String>,
}

impl SectionHeader {
    /// Whether this header reads `english` and `chinese`, with the note `meta`.
    pub open spec fn reads(
        self,
        english: Seq<char>,
        chinese: Seq<char>,
        meta: Option<Seq<char>>,
    ) -> bool {
        self.title.reads(english, chinese) && crate::text::opt_view(self.meta) == meta
    }
}

/// A section's name in both languages.
pub fn bilingual_label(english: &'static str, chinese: &'static str) -> (r: BilingualLabel)
    ensures
        r.reads(english@, chinese@),
{
    BilingualLabel { english, chinese }
}

/// A section's header.
pub fn section_header(
    english: &'static str,
    chinese: &'static str,
    meta: Option<String>,
) -> (r: SectionHeader)
    ensures
        r.reads(english@, chinese@, crate::text::opt_view(meta)),
{
    SectionHeader { title: bilingual_label(english, chinese), meta }
}

/// A section that has nothing to show but why.
pub struct EmptySection {
    pub header: SectionHeader,
    pub message: &'static str,
}

impl EmptySection {
    /// Whether this section reads `english`, `chinese` and `message`.
    pub open spec fn reads(
        self,
        english: Seq<char>,
        chinese: Seq<char>,
        message: Seq<char>,
    ) -> bool {
        self.header.reads(english, chinese, None) && self.message@ == message
    }
}

/// A section that has nothing to show but why.
pub fn empty_section(
    english: &'static str,
    chinese: &'static str,
    message: &'static str,
) -> (r: EmptySection)
    ensures
        r.reads(english@, chinese@, message@),
{
    EmptySection { header: section_header(english, chinese, None), message }
}

} // verus!
