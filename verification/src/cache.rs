//! The render cache: memoizes one layout pass keyed by source text,
//! mimetype, viewport geometry and scroll offset.  On a hit the stored
//! result is returned and the layout engine is not invoked; the host
//! keeps its raster surface for exactly as long as the key stands.
//! Geometry is integral, so key equality on it is exact.

use vstd::prelude::*;

use crate::config::Theme;
use crate::doc::Document;
use crate::layout::{box_at, column_x_s, content_width_s, layout, y_at, LineBox, LineBoxV};

verus! {

/// The key one rendered frame is stored under.
struct CacheKey {
    source: String,
    mime: String,
    width: u32,
    height: u32,
    scroll: u64,
}

/// The mathematical value of a cache key.
#[verifier::ext_equal]
pub ghost struct CacheKeyV {
    pub source: Seq<char>,
    pub mime: Seq<char>,
    pub width: int,
    pub height: int,
    pub scroll: int,
}

impl View for CacheKey {
    type V = CacheKeyV;

    closed spec fn view(&self) -> CacheKeyV {
        CacheKeyV {
            source: self.source@,
            mime: self.mime@,
            width: self.width as int,
            height: self.height as int,
            scroll: self.scroll as int,
        }
    }
}

/// The mathematical state of the cache.
#[verifier::ext_equal]
pub ghost struct CacheV {
    pub key: Option<CacheKeyV>,
    pub boxes: Seq<LineBoxV>,
    pub total_height: int,
    pub layout_calls: int,
}

/// The render cache.
pub struct Cache {
    key: Option<CacheKey>,
    boxes: Vec<LineBox>,
    total_height: u64,
    layout_calls: u64,
}

impl View for Cache {
    type V = CacheV;

    closed spec fn view(&self) -> CacheV {
        CacheV {
            key: match &self.key {
                Some(k) => Some(k@),
                None => None,
            },
            boxes: self.boxes.deep_view(),
            total_height: self.total_height as int,
            layout_calls: self.layout_calls as int,
        }
    }
}

/// The key a render call asks for.
pub open spec fn asked_key(d: crate::doc::DocumentV, vw: int, vh: int, scroll: int) -> CacheKeyV {
    CacheKeyV { source: d.source, mime: d.essence, width: vw, height: vh, scroll }
}

/// The boxes that a layout pass over these inputs yields.
pub open spec fn layed_out(
    sizes: Seq<(u32, u32)>,
    vw: int,
    vh: int,
    scroll: int,
    maxw: int,
    margin: int,
    psp: int,
) -> Seq<LineBoxV> {
    Seq::new(
        sizes.len(),
        |i: int| box_at(sizes, i, column_x_s(vw, content_width_s(vw, maxw, margin)), scroll, vh, psp),
    )
}

impl Cache {
    /// An empty cache: no key, nothing stored, no layout run yet.
    pub fn new() -> (r: Self)
        ensures
            r@.key is None,
            r@.boxes.len() == 0,
            r@.total_height == 0,
            r@.layout_calls == 0,
    {
        Cache { key: None, boxes: Vec::new(), total_height: 0, layout_calls: 0 }
    }

    /// Drops the stored frame; the next render recomputes whatever the
    /// geometry.  The host drops its surface with it.
    pub fn invalidate(&mut self)
        ensures
            final(self)@.key is None,
            final(self)@.boxes.len() == 0,
            final(self)@.total_height == 0,
            final(self)@.layout_calls == old(self)@.layout_calls,
    {
        self.key = None;
        self.boxes = Vec::new();
        self.total_height = 0;
    }

    /// How often the layout engine has run.
    pub fn layout_calls(&self) -> (r: u64)
        ensures
            r as int == self@.layout_calls,
    {
        self.layout_calls
    }

    /// The boxes of the stored frame.
    pub fn boxes(&self) -> (r: &Vec<LineBox>)
        ensures
            r.deep_view() == self@.boxes,
    {
        &self.boxes
    }

    /// Renders the document at the given geometry: on a key hit the
    /// stored height is returned and layout does not run; on a miss the
    /// layout engine runs once and the result replaces the store.  The
    /// returned flag says whether this was a miss, so the host repaints
    /// its surface exactly then.
    pub fn render(
        &mut self,
        doc: &Document,
        viewport_width: u32,
        viewport_height: u32,
        scroll: u64,
        sizes: &Vec<(u32, u32)>,
        theme: &Theme,
    ) -> (r: (bool, u64))
        requires
            sizes@.len() == doc@.lines.len(),
            sizes@.len() <= 0x100_0000,
            scroll <= 0x4000_0000_0000_0000,
            old(self)@.layout_calls < 0xffff_ffff_ffff_ffff,
        ensures
            ({
                let ak = asked_key(
                    doc@,
                    viewport_width as int,
                    viewport_height as int,
                    scroll as int,
                );
                let st = render_step(
                    old(self)@,
                    ak,
                    layed_out(
                        sizes@,
                        viewport_width as int,
                        viewport_height as int,
                        scroll as int,
                        theme.max_content_width as int,
                        theme.margin as int,
                        theme.paragraph_spacing as int,
                    ),
                    y_at(sizes@, sizes@.len() as int, theme.paragraph_spacing as int) + 2
                        * theme.paragraph_spacing,
                );
                &&& final(self)@ == st.0
                &&& r.0 == st.1
                &&& r.1 as int == st.2
            }),
    {
        let hit: bool = match &self.key {
            Some(k) => k.width == viewport_width && k.height == viewport_height && k.scroll
                == scroll && k.mime == *doc.essence() && k.source == *doc.source(),
            None => false,
        };
        proof {
            let ak = asked_key(doc@, viewport_width as int, viewport_height as int, scroll as int);
            if hit {
                assert(self@.key->0 =~= ak);
            }
        }
        if hit {
            return (false, self.total_height);
        }
        let out = layout(sizes, viewport_width, viewport_height, scroll, theme);
        self.boxes = out.0;
        self.total_height = out.1;
        self.layout_calls = self.layout_calls + 1;
        self.key = Some(
            CacheKey {
                source: doc.source().clone(),
                mime: doc.essence().clone(),
                width: viewport_width,
                height: viewport_height,
                scroll,
            },
        );
        proof {
            assert(self@.boxes =~= layed_out(
                sizes@,
                viewport_width as int,
                viewport_height as int,
                scroll as int,
                theme.max_content_width as int,
                theme.margin as int,
                theme.paragraph_spacing as int,
            ));
            assert(self@.key->0 =~= asked_key(
                doc@,
                viewport_width as int,
                viewport_height as int,
                scroll as int,
            ));
        }
        (true, self.total_height)
    }
}

/// What one render call does to the cache: a matching key returns the
/// store untouched; anything else lays out afresh, counts the layout
/// call, and stores the new frame under the asked key.
pub open spec fn render_step(c: CacheV, ak: CacheKeyV, fresh_boxes: Seq<LineBoxV>, fresh_total: int) -> (
    CacheV,
    bool,
    int,
) {
    if c.key == Some(ak) {
        (c, false, c.total_height)
    } else {
        (
            CacheV {
                key: Some(ak),
                boxes: fresh_boxes,
                total_height: fresh_total,
                layout_calls: c.layout_calls + 1,
            },
            true,
            fresh_total,
        )
    }
}

/// Cache reuse: two render calls with identical document, mimetype,
/// viewport and scroll invoke the layout engine exactly once — the first
/// stores the frame, the second is a hit that returns the same height
/// and leaves the cache untouched.
pub proof fn lemma_cache_reuse(
    c0: CacheV,
    ak: CacheKeyV,
    fresh_boxes: Seq<LineBoxV>,
    fresh_total: int,
)
    requires
        c0.key != Some(ak),
    ensures
        ({
            let first = render_step(c0, ak, fresh_boxes, fresh_total);
            let second = render_step(first.0, ak, fresh_boxes, fresh_total);
            &&& first.1 == true
            &&& second.1 == false
            &&& second.2 == first.2
            &&& second.0 == first.0
            &&& second.0.layout_calls == c0.layout_calls + 1
        }),
{
}

} // verus!
