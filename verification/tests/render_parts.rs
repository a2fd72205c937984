use umbr::font::font_glyphs;
use umbr::parser::{parse_document, ParseOutcome};
use umbr::render::{
    extract_window_children, frame_snapshot, hex_rgb, parse_align, parse_anchor, parse_flexible,
    parse_single_align, value_as_string, Align, Glyph,
};
use umbr::render::{label_text, layout_kind, LayoutKind};
use umbr::types::{Attrs, Expr, Numeral, VNode, Value, WidgetKind};

fn text(s: &str) -> Expr {
    Expr::Value(Value::String(s.to_string()))
}

#[test]
fn snapshot_drops_row_padding() {
    // two rows of one pixel, rows eight bytes apart
    let data: Vec<u8> = vec![1, 2, 3, 4, 9, 9, 9, 9, 5, 6, 7, 8];
    let f = frame_snapshot(&data, 1, 2, 8);
    assert_eq!(f.pixels, vec![1, 2, 3, 4, 5, 6, 7, 8]);
    assert_eq!((f.width, f.height, f.stride, f.n_channels), (1, 2, 4, 4));
}

#[test]
fn snapshot_of_empty_frame() {
    let f = frame_snapshot(&[], 3, 0, 256);
    assert!(f.pixels.is_empty());
    assert_eq!((f.width, f.height, f.stride), (3, 0, 12));
}

#[test]
fn alignment_names() {
    assert_eq!(parse_single_align(&text("center")), Align::Center);
    assert_eq!(parse_single_align(&text("end")), Align::End);
    assert_eq!(parse_single_align(&text("bottom")), Align::End);
    assert_eq!(parse_single_align(&text("right")), Align::End);
    assert_eq!(parse_single_align(&text("left")), Align::Start);
    assert_eq!(parse_single_align(&Expr::Binding("center".into())), Align::Start);
}

#[test]
fn alignment_pairs_and_anchor() {
    let mut a = Attrs::new();
    assert_eq!(parse_align(&a), None);
    assert_eq!(parse_anchor(&a), (Align::Start, Align::Start));
    a.insert("align".into(), Expr::Array(vec![text("center"), text("bottom")]));
    assert_eq!(parse_align(&a), Some((Align::Center, Align::End)));
    a.insert("anchor".into(), Expr::Array(vec![text("end")]));
    assert_eq!(parse_anchor(&a), (Align::Start, Align::Start));
    a.insert("anchor".into(), Expr::Array(vec![text("right"), text("center")]));
    assert_eq!(parse_anchor(&a), (Align::End, Align::Center));
}

#[test]
fn flexible_only_when_true() {
    let mut a = Attrs::new();
    assert!(!parse_flexible(&a));
    a.insert("flexible".into(), text("yes"));
    assert!(!parse_flexible(&a));
    a.insert("flexible".into(), text("true"));
    assert!(parse_flexible(&a));
}

#[test]
fn values_as_text() {
    assert_eq!(value_as_string(&text("12px")), Some("12px".to_string()));
    let n = Numeral::new("0042".to_string()).unwrap();
    assert_eq!(value_as_string(&Expr::Value(Value::Number(n))), Some("42".to_string()));
    let z = Numeral::new("000".to_string()).unwrap();
    assert_eq!(value_as_string(&Expr::Value(Value::Number(z))), Some("0".to_string()));
    assert_eq!(value_as_string(&Expr::Shell("date".into())), None);
}

#[test]
fn colors_from_codes() {
    assert_eq!(hex_rgb("#fff"), Some((255, 255, 255)));
    assert_eq!(hex_rgb("#1e1e2e"), Some((30, 30, 46)));
    assert_eq!(hex_rgb("##A0B"), Some((170, 0, 187)));
    assert_eq!(hex_rgb("000000"), Some((0, 0, 0)));
    assert_eq!(hex_rgb("#+f+f+f"), Some((15, 15, 15)));
    assert_eq!(hex_rgb("#+++"), None);
    assert_eq!(hex_rgb("#ggg"), None);
    assert_eq!(hex_rgb("#abcd"), None);
    assert_eq!(hex_rgb(""), None);
    assert_eq!(hex_rgb("#é1"), None);
}

#[test]
fn short_codes_double_their_digits() {
    assert_eq!(hex_rgb("#abc"), hex_rgb("#aabbcc"));
    assert_eq!(hex_rgb("#09f"), hex_rgb("#0099ff"));
}

#[test]
fn glyph_from_pattern_and_index() {
    let g = Glyph::from_pattern(&["#.", ".#", "##"]);
    assert_eq!((g.width, g.height), (2, 3));
    assert_eq!(g.data, vec![true, false, false, true, true, true]);
    assert!(g.index(0, 0));
    assert!(!g.index(1, 0));
    assert!(g.index(1, 1));
    assert!(g.index(0, 2));
    let e = Glyph::from_pattern(&[]);
    assert_eq!((e.width, e.height, e.data.len()), (0, 0, 0));
}

#[test]
fn built_in_font() {
    let glyphs = font_glyphs();
    assert_eq!(glyphs.len(), 67);
    let chars: String = glyphs.iter().map(|(c, _)| *c).collect();
    assert_eq!(
        chars,
        "ABCDEFGHIJKLMNOPQRSTUVWXYZabcdefghijklmnopqrstuvwxyz0123456789:.- •"
    );
    let (_, a) = &glyphs[0];
    assert_eq!((a.width, a.height), (5, 7));
    let row: Vec<bool> = a.data[15..20].to_vec();
    assert_eq!(row, vec![true, true, true, true, true]);
    let (_, j) = &glyphs[9];
    assert_eq!(j.data.len(), 29);
    for (c, g) in &glyphs {
        if *c != 'J' {
            assert_eq!(g.data.len(), 35);
        }
    }
    let (_, space) = &glyphs[65];
    assert!(space.data.iter().all(|b| !b));
}

#[test]
fn window_children_of_a_layout() {
    let u = match parse_document("(window :align 'center' (label ('a')) (label ('b')))") {
        ParseOutcome::Parsed(u) => u,
        _ => panic!("not parsed"),
    };
    let (attrs, children) = extract_window_children(&u).unwrap();
    assert_eq!(children.len(), 2);
    assert_eq!(parse_anchor(attrs), (Align::Start, Align::Start));
    assert!(matches!(attrs.get("align"), Some(Expr::Value(Value::String(s))) if s == "center"));
    let v = match parse_document("(label ('a'))") {
        ParseOutcome::Parsed(v) => v,
        _ => panic!("not parsed"),
    };
    assert!(extract_window_children(&v).is_none());
}

fn widget(kind: WidgetKind, child: Vec<VNode>) -> VNode {
    VNode::Widget { kind, attributes: Attrs::new(), child: Box::new(child) }
}

#[test]
fn which_nodes_are_laid_out() {
    assert_eq!(layout_kind(&widget(WidgetKind::Column, vec![])), Some(LayoutKind::Column));
    assert_eq!(layout_kind(&widget(WidgetKind::Row, vec![])), Some(LayoutKind::Row));
    assert_eq!(layout_kind(&widget(WidgetKind::Label, vec![])), Some(LayoutKind::Label));
    assert_eq!(layout_kind(&widget(WidgetKind::Absolute, vec![])), Some(LayoutKind::Absolute));
    assert_eq!(layout_kind(&widget(WidgetKind::Rectangle, vec![])), None);
    assert_eq!(layout_kind(&widget(WidgetKind::Custom, vec![])), None);
    assert_eq!(layout_kind(&VNode::Fragment(Box::new(vec![]))), Some(LayoutKind::Fragment));
    assert_eq!(layout_kind(&VNode::Empty), None);
    assert_eq!(label_text(&vec![VNode::String("hi".into()), VNode::Empty]), "hi");
    assert_eq!(label_text(&vec![VNode::Binding("x".into())]), "");
    assert_eq!(label_text(&vec![]), "");
}
