use moonlander::cache::Cache;
use moonlander::config::Theme;
use moonlander::doc::Document;
use moonlander::hit::{hit_test, ClickOutcome, Pointer};
use moonlander::layout::{layout, line_style, LineBox};
use moonlander::line::Line;

fn gem_doc(body: &[u8]) -> Document {
    let mut d = Document::new();
    d.set_mime("text/gemini").unwrap();
    d.new_page_chunk(body).unwrap();
    d
}

#[test]
fn layout_positions_and_total_height() {
    let theme = Theme::default();
    let sizes: Vec<(u32, u32)> = vec![(100, 20), (200, 30)];
    let (boxes, total) = layout(&sizes, 500, 400, 0, &theme);
    // column: min(500, 800) - 2*40 = 420 wide, centered: 500/2 - 420/2 = 40
    assert_eq!(
        boxes,
        vec![
            LineBox { x: 40, y: 8, width: 100, height: 20, painted: true },
            LineBox { x: 40, y: 32, width: 200, height: 30, painted: true },
        ]
    );
    // cursor after both lines: 8 + 24 + 34 = 66; plus 2 * 4
    assert_eq!(total, 74);
}

#[test]
fn layout_is_idempotent() {
    let theme = Theme::default();
    let sizes: Vec<(u32, u32)> = vec![(10, 10), (20, 20), (30, 30)];
    let first = layout(&sizes, 640, 480, 25, &theme);
    let second = layout(&sizes, 640, 480, 25, &theme);
    assert_eq!(first, second);
}

#[test]
fn layout_measures_unpainted_lines_too() {
    let theme = Theme::default();
    // A tall first line pushes the second far below the paint window.
    let sizes: Vec<(u32, u32)> = vec![(10, 5000), (10, 10)];
    let (boxes, _) = layout(&sizes, 500, 400, 0, &theme);
    assert!(boxes[0].painted);
    assert!(!boxes[1].painted);
    // Its position still accounts for the full height above it.
    assert_eq!(boxes[1].y, 8 + 5000 + 4);
}

#[test]
fn cache_runs_layout_once_for_identical_calls() {
    let theme = Theme::default();
    let d = gem_doc(b"one\ntwo\n");
    let sizes: Vec<(u32, u32)> = vec![(50, 20), (60, 20)];
    let mut cache = Cache::new();
    let (miss1, h1) = cache.render(&d, 500, 400, 0, &sizes, &theme);
    let (miss2, h2) = cache.render(&d, 500, 400, 0, &sizes, &theme);
    assert!(miss1);
    assert!(!miss2);
    assert_eq!(h1, h2);
    assert_eq!(cache.layout_calls(), 1);
}

#[test]
fn cache_recomputes_on_changed_scroll() {
    let theme = Theme::default();
    let d = gem_doc(b"one\n");
    let sizes: Vec<(u32, u32)> = vec![(50, 20)];
    let mut cache = Cache::new();
    cache.render(&d, 500, 400, 0, &sizes, &theme);
    cache.render(&d, 500, 400, 10, &sizes, &theme);
    assert_eq!(cache.layout_calls(), 2);
}

#[test]
fn cache_recomputes_on_changed_source() {
    let theme = Theme::default();
    let mut d = gem_doc(b"one\n");
    let sizes: Vec<(u32, u32)> = vec![(50, 20)];
    let mut cache = Cache::new();
    cache.render(&d, 500, 400, 0, &sizes, &theme);
    d.new_page_chunk(b"two\n").unwrap();
    let sizes2: Vec<(u32, u32)> = vec![(50, 20), (50, 20)];
    let (miss, _) = cache.render(&d, 500, 400, 0, &sizes2, &theme);
    assert!(miss);
    assert_eq!(cache.layout_calls(), 2);
}

#[test]
fn cache_invalidation_forces_recompute() {
    let theme = Theme::default();
    let d = gem_doc(b"one\n");
    let sizes: Vec<(u32, u32)> = vec![(50, 20)];
    let mut cache = Cache::new();
    cache.render(&d, 500, 400, 0, &sizes, &theme);
    cache.invalidate();
    let (miss, _) = cache.render(&d, 500, 400, 0, &sizes, &theme);
    assert!(miss);
}

#[test]
fn hit_test_finds_first_containing_box() {
    let boxes = vec![
        LineBox { x: 10, y: 10, width: 100, height: 20, painted: true },
        LineBox { x: 10, y: 40, width: 100, height: 20, painted: true },
    ];
    assert_eq!(hit_test(&boxes, 15, 15), Some(0));
    assert_eq!(hit_test(&boxes, 15, 45), Some(1));
    assert_eq!(hit_test(&boxes, 15, 35), None);
    assert_eq!(hit_test(&boxes, 500, 15), None);
}

#[test]
fn click_on_link_resolves_against_base_url() {
    let mut d = gem_doc(b"=> sub/page Home\n");
    d.set_url("gemini://host/dir/");
    let boxes = vec![LineBox { x: 0, y: 0, width: 100, height: 20, painted: true }];
    let lines = d.lines().clone();
    let mut p = Pointer::new();
    let r = p.on_mouse_release(&d, &boxes, &lines, 5, 5);
    assert_eq!(r, ClickOutcome::Navigate("gemini://host/dir/sub/page".to_string()));
}

#[test]
fn click_without_base_url_is_reported() {
    let d = gem_doc(b"=> sub/page Home\n");
    let boxes = vec![LineBox { x: 0, y: 0, width: 100, height: 20, painted: true }];
    let lines = d.lines().clone();
    let mut p = Pointer::new();
    let r = p.on_mouse_release(&d, &boxes, &lines, 5, 5);
    assert_eq!(r, ClickOutcome::NoBaseUrl);
}

#[test]
fn click_on_plain_text_does_nothing() {
    let mut d = gem_doc(b"just text\n");
    d.set_url("gemini://host/");
    let boxes = vec![LineBox { x: 0, y: 0, width: 100, height: 20, painted: true }];
    let lines = d.lines().clone();
    let mut p = Pointer::new();
    let r = p.on_mouse_release(&d, &boxes, &lines, 5, 5);
    assert_eq!(r, ClickOutcome::Nothing);
}

#[test]
fn hover_has_no_tooltip_today() {
    let p = Pointer::new();
    let boxes = vec![LineBox { x: 0, y: 0, width: 100, height: 20, painted: true }];
    assert_eq!(p.on_mouse_move(&boxes, 5, 5), None);
}

#[test]
fn line_style_resolves_by_variant_and_level() {
    let theme = Theme::default();
    let h1 = Line::Heading { level: 1, text: "a".to_string() };
    let h2 = Line::Heading { level: 2, text: "a".to_string() };
    let pre = Line::Preformatted { text: "a".to_string() };
    let link = Line::Link { target: "t".to_string(), caption: "c".to_string() };
    assert_eq!(line_style(&h1, &theme).size, theme.heading.level1_size);
    assert_eq!(line_style(&h2, &theme).size, theme.heading.level2_size);
    assert_eq!(line_style(&pre, &theme).font, theme.monospace.font);
    assert_eq!(line_style(&link, &theme).color, theme.link.color);
    assert_eq!(
        line_style(&Line::ListItem { text: "a".to_string() }, &theme).line_spacing,
        theme.list.line_spacing
    );
}

#[test]
fn default_theme_sections() {
    let theme = Theme::default();
    assert_eq!(theme.content.font, "sans-serif");
    assert_eq!(theme.monospace.font, "monospace");
    assert_eq!(theme.list.bullet, "\u{2022}");
    assert_eq!(theme.link.color, moonlander::config::Color(0, 0, 255));
}
