//! The layout engine: positions every line of the document against the
//! viewport and theme.  Pure in its inputs: measured sizes in, absolute
//! boxes and the total content height out.  Every line is measured and
//! advances the cursor; painting is gated to a window around the
//! viewport.

use vstd::prelude::*;

use crate::config::{Color, Theme};
use crate::line::{Line, LineV};

verus! {

/// The positioned box of one line, and whether it is painted this pass.
#[derive(Clone, Copy, Debug, PartialEq, Eq, Structural)]
pub struct LineBox {
    pub x: u64,
    pub y: u64,
    pub width: u64,
    pub height: u64,
    pub painted: bool,
}

/// The mathematical value of a `LineBox`.
#[verifier::ext_equal]
pub ghost struct LineBoxV {
    pub x: int,
    pub y: int,
    pub width: int,
    pub height: int,
    pub painted: bool,
}

impl View for LineBox {
    type V = LineBoxV;

    open spec fn view(&self) -> LineBoxV {
        LineBoxV {
            x: self.x as int,
            y: self.y as int,
            width: self.width as int,
            height: self.height as int,
            painted: self.painted,
        }
    }
}

impl DeepView for LineBox {
    type V = LineBoxV;

    open spec fn deep_view(&self) -> LineBoxV {
        self@
    }
}

/// The content column width: the viewport capped at the theme's maximum,
/// minus a margin on both sides, never below zero.
pub open spec fn content_width_s(vw: int, maxw: int, margin: int) -> int {
    let w = if vw <= maxw {
        vw
    } else {
        maxw
    };
    if w - 2 * margin >= 0 {
        w - 2 * margin
    } else {
        0
    }
}

/// The x offset that centers the content column in the viewport.
pub open spec fn column_x_s(vw: int, cw: int) -> int {
    vw / 2 - cw / 2
}

/// Whether a line whose vertical span is `[y, y+h]` is painted: its span
/// must meet the window one viewport height above and two below the
/// scroll offset.
pub open spec fn painted_s(y: int, h: int, scroll: int, vh: int) -> bool {
    y + h >= scroll - vh && y <= scroll + 2 * vh
}

/// The cursor position before line `i`: paragraph spacing twice, then
/// each earlier line's height plus paragraph spacing.
pub open spec fn y_at(sizes: Seq<(u32, u32)>, i: int, psp: int) -> int
    decreases i,
{
    if i <= 0 {
        2 * psp
    } else {
        y_at(sizes, i - 1, psp) + sizes[i - 1].1 + psp
    }
}

/// The box of line `i`.
pub open spec fn box_at(
    sizes: Seq<(u32, u32)>,
    i: int,
    x: int,
    scroll: int,
    vh: int,
    psp: int,
) -> LineBoxV {
    LineBoxV {
        x,
        y: y_at(sizes, i, psp),
        width: sizes[i].0 as int,
        height: sizes[i].1 as int,
        painted: painted_s(y_at(sizes, i, psp), sizes[i].1 as int, scroll, vh),
    }
}

proof fn lemma_y_at_bound(sizes: Seq<(u32, u32)>, i: int, psp: int)
    requires
        0 <= i <= sizes.len(),
        0 <= psp < 0x1_0000_0000,
    ensures
        2 * psp <= y_at(sizes, i, psp) <= 2 * psp + i * 0x2_0000_0000,
    decreases i,
{
    if i > 0 {
        lemma_y_at_bound(sizes, i - 1, psp);
        assert((i - 1) * 0x2_0000_0000 + 0x2_0000_0000 == i * 0x2_0000_0000) by (nonlinear_arith);
    }
}

/// Lays the lines out: one box per measured size, in document order, and
/// the total content height (the final cursor plus paragraph spacing
/// twice).
pub fn layout(
    sizes: &Vec<(u32, u32)>,
    viewport_width: u32,
    viewport_height: u32,
    scroll: u64,
    theme: &Theme,
) -> (r: (Vec<LineBox>, u64))
    requires
        sizes.len() <= 0x100_0000,
        scroll <= 0x4000_0000_0000_0000,
    ensures
        r.0.deep_view().len() == sizes.len(),
        forall|i: int|
            0 <= i < sizes.len() ==> r.0.deep_view()[i] == box_at(
                sizes@,
                i,
                column_x_s(
                    viewport_width as int,
                    content_width_s(
                        viewport_width as int,
                        theme.max_content_width as int,
                        theme.margin as int,
                    ),
                ),
                scroll as int,
                viewport_height as int,
                theme.paragraph_spacing as int,
            ),
        r.1 as int == y_at(sizes@, sizes.len() as int, theme.paragraph_spacing as int) + 2
            * theme.paragraph_spacing,
{
    let psp: u32 = theme.paragraph_spacing;
    let w: u32 = if viewport_width <= theme.max_content_width {
        viewport_width
    } else {
        theme.max_content_width
    };
    let margin2: u64 = 2 * (theme.margin as u64);
    let cw: u32 = if (w as u64) >= margin2 {
        ((w as u64) - margin2) as u32
    } else {
        0
    };
    proof {
        assert(cw as int == content_width_s(
            viewport_width as int,
            theme.max_content_width as int,
            theme.margin as int,
        ));
    }
    let x: u64 = (viewport_width / 2) as u64 - (cw / 2) as u64;
    let ghost xs = column_x_s(
        viewport_width as int,
        content_width_s(
            viewport_width as int,
            theme.max_content_width as int,
            theme.margin as int,
        ),
    );
    proof {
        assert(cw <= viewport_width);
        assert(x as int == xs);
    }
    let lower: u64 = if scroll > viewport_height as u64 {
        scroll - viewport_height as u64
    } else {
        0
    };
    let upper: u64 = scroll + 2 * (viewport_height as u64);
    let n = sizes.len();
    let mut boxes: Vec<LineBox> = Vec::new();
    let mut cursor: u64 = 2 * (psp as u64);
    let mut i: usize = 0;
    while i < n
        invariant
            0 <= i <= n,
            n == sizes@.len(),
            n <= 0x100_0000,
            scroll <= 0x4000_0000_0000_0000,
            psp == theme.paragraph_spacing,
            lower as int == (if scroll as int - viewport_height as int >= 0 {
                scroll as int - viewport_height as int
            } else {
                0
            }),
            upper as int == scroll as int + 2 * viewport_height as int,
            cursor as int == y_at(sizes@, i as int, psp as int),
            cursor as int <= 2 * (psp as int) + (i as int) * 0x2_0000_0000,
            boxes.deep_view().len() == i as int,
            forall|k: int|
                0 <= k < i ==> boxes.deep_view()[k] == box_at(
                    sizes@,
                    k,
                    x as int,
                    scroll as int,
                    viewport_height as int,
                    psp as int,
                ),
        decreases n - i,
    {
        let (bw, bh) = sizes[i];
        let painted: bool = cursor + bh as u64 >= lower && cursor <= upper;
        proof {
            assert(painted == painted_s(
                cursor as int,
                bh as int,
                scroll as int,
                viewport_height as int,
            ));
        }
        let ghost prevs = boxes@;
        let ghost prevd = boxes.deep_view();
        boxes.push(
            LineBox { x, y: cursor, width: bw as u64, height: bh as u64, painted },
        );
        proof {
            assert forall|k: int| 0 <= k < i implies boxes.deep_view()[k] == box_at(
                sizes@,
                k,
                x as int,
                scroll as int,
                viewport_height as int,
                psp as int,
            ) by {
                assert(prevd[k] == prevs[k].deep_view());
                assert(boxes@[k] == prevs[k]);
                assert(boxes.deep_view()[k] == boxes@[k].deep_view());
            }
            assert(boxes.deep_view()[i as int] =~= box_at(
                sizes@,
                i as int,
                x as int,
                scroll as int,
                viewport_height as int,
                psp as int,
            ));
            assert((i as int) * 0x2_0000_0000 + 0x2_0000_0000 == (i as int + 1)
                * 0x2_0000_0000) by (nonlinear_arith);
        }
        cursor = cursor + bh as u64 + psp as u64;
        i = i + 1;
    }
    proof {
        lemma_y_at_bound(sizes@, n as int, psp as int);
    }
    let total: u64 = cursor + 2 * (psp as u64);
    (boxes, total)
}

/// Layout idempotence: the boxes and the total height are a function of
/// the measured sizes, viewport, scroll offset and theme numbers alone,
/// so repeating layout with unchanged inputs yields identical output.
pub proof fn lemma_layout_idempotent(
    sizes: Seq<(u32, u32)>,
    b1: Seq<LineBoxV>,
    t1: int,
    b2: Seq<LineBoxV>,
    t2: int,
    x: int,
    scroll: int,
    vh: int,
    psp: int,
)
    requires
        b1.len() == sizes.len(),
        b2.len() == sizes.len(),
        forall|i: int| 0 <= i < sizes.len() ==> b1[i] == box_at(sizes, i, x, scroll, vh, psp),
        forall|i: int| 0 <= i < sizes.len() ==> b2[i] == box_at(sizes, i, x, scroll, vh, psp),
        t1 == y_at(sizes, sizes.len() as int, psp) + 2 * psp,
        t2 == y_at(sizes, sizes.len() as int, psp) + 2 * psp,
    ensures
        b1 == b2,
        t1 == t2,
{
    assert(b1 =~= b2);
}

/// The style a line is drawn with, resolved from the theme.
pub struct LineStyle {
    pub font: String,
    pub color: Color,
    pub size: u32,
    pub line_spacing: u32,
}

/// Resolves a line's font, color, size and spacing from the theme by
/// variant — and for headings by level: plain text and list items in
/// their sections, links in the link section, preformatted text in the
/// monospace section.
pub fn line_style(line: &Line, theme: &Theme) -> (r: LineStyle)
    ensures
        line@ is PlainText ==> r.font@ == theme.content.font@ && r.color == theme.content.color
            && r.size == theme.content.size && r.line_spacing == theme.content.line_spacing,
        line@ matches LineV::Heading { level, .. } ==> r.font@ == theme.heading.font@
            && r.color == theme.heading.color && r.line_spacing == theme.heading.line_spacing
            && r.size == (if level == 1 {
            theme.heading.level1_size
        } else {
            theme.heading.level2_size
        }),
        line@ is Link ==> r.font@ == theme.link.font@ && r.color == theme.link.color && r.size
            == theme.link.size && r.line_spacing == theme.link.line_spacing,
        line@ is ListItem ==> r.font@ == theme.list.font@ && r.color == theme.list.color
            && r.size == theme.list.size && r.line_spacing == theme.list.line_spacing,
        line@ is Preformatted ==> r.font@ == theme.monospace.font@ && r.color
            == theme.monospace.color && r.size == theme.monospace.size && r.line_spacing
            == theme.monospace.line_spacing,
{
    match line {
        Line::PlainText { .. } => LineStyle {
            font: theme.content.font.clone(),
            color: theme.content.color,
            size: theme.content.size,
            line_spacing: theme.content.line_spacing,
        },
        Line::Heading { level, .. } => LineStyle {
            font: theme.heading.font.clone(),
            color: theme.heading.color,
            size: if *level == 1 {
                theme.heading.level1_size
            } else {
                theme.heading.level2_size
            },
            line_spacing: theme.heading.line_spacing,
        },
        Line::Link { .. } => LineStyle {
            font: theme.link.font.clone(),
            color: theme.link.color,
            size: theme.link.size,
            line_spacing: theme.link.line_spacing,
        },
        Line::ListItem { .. } => LineStyle {
            font: theme.list.font.clone(),
            color: theme.list.color,
            size: theme.list.size,
            line_spacing: theme.list.line_spacing,
        },
        Line::Preformatted { .. } => LineStyle {
            font: theme.monospace.font.clone(),
            color: theme.monospace.color,
            size: theme.monospace.size,
            line_spacing: theme.monospace.line_spacing,
        },
    }
}

} // verus!
