//! The theme: per-variant fonts, colors, sizes and spacings, global
//! margin, content width cap, paragraph spacing and background color.
//! All geometry is in whole pixels.

use vstd::prelude::*;

verus! {

/// An RGB color.
#[derive(Clone, Copy, Debug, PartialEq, Eq, Structural)]
pub struct Color(pub u8, pub u8, pub u8);

/// Font, color and spacing of one ordinary line variant.
#[derive(Clone, Debug)]
pub struct Section {
    pub font: String,
    pub color: Color,
    pub size: u32,
    pub line_spacing: u32,
}

/// Font, color and per-level sizes of headings.
#[derive(Clone, Debug)]
pub struct HeadingSection {
    pub font: String,
    pub color: Color,
    pub level1_size: u32,
    pub level2_size: u32,
    pub line_spacing: u32,
}

/// Font, color, bullet glyph and spacing of list items.
#[derive(Clone, Debug)]
pub struct ListSection {
    pub font: String,
    pub color: Color,
    pub bullet: String,
    pub size: u32,
    pub bullet_padding: u32,
    pub line_spacing: u32,
}

/// The whole theme.
#[derive(Clone, Debug)]
pub struct Theme {
    pub margin: u32,
    pub max_content_width: u32,
    pub paragraph_spacing: u32,
    pub background_color: Color,
    pub content: Section,
    pub link: Section,
    pub monospace: Section,
    pub heading: HeadingSection,
    pub list: ListSection,
}

impl Default for Theme {
    /// The stock theme: serif-free defaults on a white background.
    fn default() -> (r: Self)
        ensures
            r.margin == 40,
            r.max_content_width == 800,
            r.paragraph_spacing == 4,
            r.background_color == (Color(255, 255, 255)),
            r.content.font@ == "sans-serif"@,
            r.content.color == (Color(0, 0, 0)),
            r.content.size == 14,
            r.content.line_spacing == 3,
            r.link.font@ == "sans-serif"@,
            r.link.color == (Color(0, 0, 255)),
            r.link.size == 14,
            r.link.line_spacing == 3,
            r.monospace.font@ == "monospace"@,
            r.monospace.color == (Color(0, 0, 0)),
            r.monospace.size == 12,
            r.monospace.line_spacing == 1,
            r.heading.font@ == "sans-serif"@,
            r.heading.color == (Color(0, 0, 0)),
            r.heading.level1_size == 27,
            r.heading.level2_size == 20,
            r.heading.line_spacing == 2,
            r.list.font@ == "sans-serif"@,
            r.list.color == (Color(0, 0, 0)),
            r.list.bullet@ == "\u{2022}"@,
            r.list.size == 14,
            r.list.bullet_padding == 4,
            r.list.line_spacing == 3,
    {
        Theme {
            margin: 40,
            max_content_width: 800,
            paragraph_spacing: 4,
            background_color: Color(255, 255, 255),
            content: Section {
                font: String::from_str("sans-serif"),
                color: Color(0, 0, 0),
                size: 14,
                line_spacing: 3,
            },
            link: Section {
                font: String::from_str("sans-serif"),
                color: Color(0, 0, 255),
                size: 14,
                line_spacing: 3,
            },
            monospace: Section {
                font: String::from_str("monospace"),
                color: Color(0, 0, 0),
                size: 12,
                line_spacing: 1,
            },
            heading: HeadingSection {
                font: String::from_str("sans-serif"),
                color: Color(0, 0, 0),
                level1_size: 27,
                level2_size: 20,
                line_spacing: 2,
            },
            list: ListSection {
                font: String::from_str("sans-serif"),
                color: Color(0, 0, 0),
                bullet: String::from_str("\u{2022}"),
                size: 14,
                bullet_padding: 4,
                line_spacing: 3,
            },
        }
    }
}

} // verus!
