use vstd::prelude::*;
use vstd::utf8::{encode_utf8, is_continuation_byte};

use crate::codegen::{lemma_exprs_view_index, number_text, number_text_exec};
use crate::text::{chars_of, string_from};
use crate::types::{nodes_view, Attrs, Expr, SpecExpr, SpecVNode, SpecValue, Uheex, VNode, Value, WidgetKind};

verus! {

/// A rendered frame: `height` rows of `width` RGBA pixels, packed without
/// padding.
#[derive(Debug, Clone)]
pub struct FrameSnapshot {
    pub pixels: Vec<u8>,
    pub width: i32,
    pub height: i32,
    pub stride: i32,
    pub n_channels: i32,
}

/// The frame read back from the graphics card into `data`, whose rows start
/// `padded` bytes apart, as rows of `width` four-byte pixels packed one after
/// another.
pub fn frame_snapshot(data: &[u8], width: u32, height: u32, padded: u32) -> (res: FrameSnapshot)
    requires
        width * 4 <= u32::MAX,
        width * height * 4 <= u32::MAX,
        height > 0 ==> (height - 1) * padded + width * 4 <= data@.len(),
    ensures
        res.pixels@.len() == width * height * 4,
        forall|r: int, k: int|
            0 <= r < height && 0 <= k < width * 4 ==> #[trigger] res.pixels@[r * (width * 4) + k]
                == data@[r * padded + k],
        res.width == width as i32,
        res.height == height as i32,
        res.stride == (width * 4) as i32,
        res.n_channels == 4,
{
    proof {
        if height > 0 {
            assert(width * 4 <= width * height * 4) by (nonlinear_arith)
                requires height > 0;
        }
    }
    let n: usize = data.len();
    let row_bytes: u32 = if height == 0 { 0 } else { width * 4 };
    let mut pixels: Vec<u8> = Vec::new();
    let mut row: u32 = 0;
    while row < height
        invariant
            0 <= row <= height,
            n == data@.len(),
            height > 0 ==> row_bytes == width * 4,
            height > 0 ==> (height - 1) * padded + width * 4 <= data@.len(),
            width * height * 4 <= u32::MAX,
            pixels@.len() == row * row_bytes,
            forall|r: int, k: int|
                0 <= r < row && 0 <= k < row_bytes ==> #[trigger] pixels@[r * row_bytes + k]
                    == data@[r * padded + k],
        decreases height - row,
    {
        proof {
            assert(row * padded <= (height - 1) * padded) by (nonlinear_arith)
                requires row <= height - 1;
            assert((row + 1) * row_bytes <= height * row_bytes) by (nonlinear_arith)
                requires row + 1 <= height;
            assert(height * row_bytes == width * height * 4) by (nonlinear_arith)
                requires row_bytes == width * 4;
        }
        let src: usize = row as usize * padded as usize;
        let mut k: u32 = 0;
        while k < row_bytes
            invariant
                0 <= k <= row_bytes,
                row < height,
                row_bytes == width * 4,
                n == data@.len(),
                src == row * padded,
                src + row_bytes <= data@.len(),
                (row + 1) * row_bytes <= u32::MAX,
                pixels@.len() == row * row_bytes + k,
                forall|r: int, j: int|
                    0 <= r < row && 0 <= j < row_bytes ==> #[trigger] pixels@[r * row_bytes + j]
                        == data@[r * padded + j],
                forall|j: int| 0 <= j < k ==> #[trigger] pixels@[row * row_bytes + j] == data@[src + j],
            decreases row_bytes - k,
        {
            proof {
                assert((row + 1) * row_bytes == row * row_bytes + row_bytes) by (nonlinear_arith);
            }
            pixels.push(data[src + k as usize]);
            proof {
                assert forall|r: int, j: int|
                    0 <= r < row && 0 <= j < row_bytes implies #[trigger] pixels@[r * row_bytes + j]
                        == data@[r * padded + j] by {
                    assert(r * row_bytes + j < row * row_bytes) by (nonlinear_arith)
                        requires 0 <= r < row, 0 <= j < row_bytes;
                }
            }
            k += 1;
        }
        proof {
            assert forall|r: int, j: int|
                0 <= r < row + 1 && 0 <= j < row_bytes implies #[trigger] pixels@[r * row_bytes + j]
                    == data@[r * padded + j] by {
                if r == row {
                    assert(data@[src + j] == data@[r * padded + j]);
                }
            }
            assert((row + 1) * row_bytes == row * row_bytes + row_bytes) by (nonlinear_arith);
        }
        row += 1;
    }
    proof {
        if height == 0 {
            assert(width * height * 4 == 0) by (nonlinear_arith)
                requires height == 0;
        } else {
            assert(height * row_bytes == width * height * 4) by (nonlinear_arith)
                requires row_bytes == width * 4;
        }
    }
    FrameSnapshot {
        pixels,
        width: #[verifier::truncate] (width as i32),
        height: #[verifier::truncate] (height as i32),
        stride: #[verifier::truncate] ((width * 4) as i32),
        n_channels: 4,
    }
}

/// Where content sits along one axis.
#[derive(Debug, Clone, Copy, PartialEq, Eq, Structural)]
pub enum Align {
    Start,
    Center,
    End,
}

/// The alignment an expression names: `center`, or `end`, `bottom` or
/// `right` for the end; anything else is the start.
pub open spec fn align_of(e: SpecExpr) -> Align {
    match e {
        SpecExpr::Value(SpecValue::String(s)) => if s == "center"@ {
            Align::Center
        } else if s == "end"@ || s == "bottom"@ || s == "right"@ {
            Align::End
        } else {
            Align::Start
        },
        _ => Align::Start,
    }
}

/// The alignment an expression names; see [`align_of`].
pub fn parse_single_align(expr: &Expr) -> (res: Align)
    ensures
        res == align_of(expr@),
{
    match expr {
        Expr::Value(Value::String(s)) => {
            let v = s.as_str();
            if crate::text::str_eq(v, "center") {
                Align::Center
            } else if crate::text::str_eq(v, "end") || crate::text::str_eq(v, "bottom")
                || crate::text::str_eq(v, "right") {
                Align::End
            } else {
                Align::Start
            }
        },
        _ => Align::Start,
    }
}

/// The pair of alignments attribute `key` holds when it is an array of two.
pub open spec fn align_pair(a: Map<Seq<char>, SpecExpr>, key: Seq<char>) -> Option<(Align, Align)> {
    if a.contains_key(key) && a[key] is Array && a[key]->Array_0.len() == 2 {
        Some((align_of(a[key]->Array_0[0]), align_of(a[key]->Array_0[1])))
    } else {
        None
    }
}

fn align_pair_exec(attributes: &Attrs, key: &str) -> (res: Option<(Align, Align)>)
    ensures
        res == align_pair(attributes@, key@),
{
    match attributes.get(key) {
        Some(Expr::Array(values)) => {
            proof {
                lemma_exprs_view_index(values@);
            }
            if values.len() == 2 {
                Some((parse_single_align(&values[0]), parse_single_align(&values[1])))
            } else {
                None
            }
        },
        _ => None,
    }
}

/// The alignment of a container's children: attribute `align` as a pair of
/// alignments, if it is one.
pub fn parse_align(attributes: &Attrs) -> (res: Option<(Align, Align)>)
    ensures
        res == align_pair(attributes@, "align"@),
{
    align_pair_exec(attributes, "align")
}

/// Where a window places its content: attribute `anchor` as a pair of
/// alignments, the start on both axes when it is not one.
pub fn parse_anchor(attributes: &Attrs) -> (res: (Align, Align))
    ensures
        res == match align_pair(attributes@, "anchor"@) {
            Some(p) => p,
            None => (Align::Start, Align::Start),
        },
{
    match align_pair_exec(attributes, "anchor") {
        Some(p) => p,
        None => (Align::Start, Align::Start),
    }
}

/// Whether a node may grow: attribute `flexible` is the text `true`.
pub fn parse_flexible(attributes: &Attrs) -> (res: bool)
    ensures
        res == (attributes@.contains_key("flexible"@) && (attributes@["flexible"@] matches SpecExpr::Value(
            SpecValue::String(v),
        ) && v == "true"@)),
{
    match attributes.get("flexible") {
        Some(Expr::Value(Value::String(v))) => crate::text::str_eq(v.as_str(), "true"),
        _ => false,
    }
}

/// The text of a plain value: a text as it is, a number as it is printed.
pub fn value_as_string(expr: &Expr) -> (res: Option<String>)
    ensures
        match expr@ {
            SpecExpr::Value(SpecValue::String(v)) => res matches Some(s) && s@ == v,
            SpecExpr::Value(SpecValue::Number(d)) => res matches Some(s) && s@ == number_text(d),
            _ => res is None,
        },
{
    match expr {
        Expr::Value(Value::String(v)) => Some(v.clone()),
        Expr::Value(Value::Number(n)) => Some(number_text_exec(n)),
        _ => None,
    }
}

/// The attributes and children of a layout's window, when its root is one.
pub fn extract_window_children(layout: &Uheex) -> (res: Option<(&Attrs, &Vec<VNode>)>)
    ensures
        match layout.root {
            VNode::Window { attributes, child } => res matches Some((a, c)) && a@ == attributes@
                && c@ == child@,
            _ => res is None,
        },
{
    match &layout.root {
        VNode::Window { attributes, child } => Some((attributes, &**child)),
        _ => None,
    }
}

/// What a node becomes in the drawn layout: a column, a row, a label, an
/// absolutely placed node, or a column that groups a fragment's nodes.
#[derive(Debug, Clone, Copy, PartialEq, Eq, Structural)]
pub enum LayoutKind {
    Column,
    Row,
    Label,
    Absolute,
    Fragment,
}

/// The layout kind of a node: widgets that are columns, rows, labels or
/// absolutely placed, and fragments, are laid out; nothing else is.
pub open spec fn layout_kind_of(n: SpecVNode) -> Option<LayoutKind> {
    match n {
        SpecVNode::Widget { kind, .. } => match kind {
            WidgetKind::Column => Some(LayoutKind::Column),
            WidgetKind::Row => Some(LayoutKind::Row),
            WidgetKind::Label => Some(LayoutKind::Label),
            WidgetKind::Absolute => Some(LayoutKind::Absolute),
            _ => None,
        },
        SpecVNode::Fragment(_) => Some(LayoutKind::Fragment),
        _ => None,
    }
}

/// The layout kind of a node; see [`layout_kind_of`].
pub fn layout_kind(node: &VNode) -> (res: Option<LayoutKind>)
    ensures
        res == layout_kind_of(node@),
{
    match node {
        VNode::Widget { kind, .. } => match kind {
            WidgetKind::Column => Some(LayoutKind::Column),
            WidgetKind::Row => Some(LayoutKind::Row),
            WidgetKind::Label => Some(LayoutKind::Label),
            WidgetKind::Absolute => Some(LayoutKind::Absolute),
            _ => None,
        },
        VNode::Fragment(_) => Some(LayoutKind::Fragment),
        _ => None,
    }
}

/// The text of a label with children `child`: its first child when that is a
/// text, else nothing.
pub open spec fn label_text_of(child: Seq<SpecVNode>) -> Seq<char> {
    if child.len() > 0 && child[0] is String {
        child[0]->String_0
    } else {
        Seq::empty()
    }
}

/// The text a label shows; see [`label_text_of`].
pub fn label_text(child: &Vec<VNode>) -> (res: String)
    ensures
        res@ == label_text_of(nodes_view(child@)),
{
    proof {
        crate::codegen::lemma_nodes_view_index(child@);
    }
    if child.len() == 0 {
        return String::new();
    }
    match &child[0] {
        VNode::String(v) => v.clone(),
        _ => String::new(),
    }
}

/// `s` without its leading `#` characters.
pub open spec fn trim_hashes(s: Seq<char>) -> Seq<char>
    decreases s.len(),
{
    if s.len() > 0 && s[0] == '#' {
        trim_hashes(s.drop_first())
    } else {
        s
    }
}

/// The value of a hexadecimal digit byte.
pub open spec fn hex_digit(b: u8) -> Option<u8> {
    if 0x30 <= b <= 0x39 {
        Some((b - 0x30) as u8)
    } else if 0x61 <= b <= 0x66 {
        Some((b - 0x61 + 10) as u8)
    } else if 0x41 <= b <= 0x46 {
        Some((b - 0x41 + 10) as u8)
    } else {
        None
    }
}

/// Two bytes read as a hexadecimal `u8` the way `u8::from_str_radix` reads
/// them: two digits, or a `+` sign and one digit.
pub open spec fn pair_value(x: u8, y: u8) -> Option<u8> {
    if x == 0x2b {
        hex_digit(y)
    } else {
        match (hex_digit(x), hex_digit(y)) {
            (Some(a), Some(b)) => Some((a * 16 + b) as u8),
            _ => None,
        }
    }
}

/// The red, green and blue values a color code's bytes give: three digits,
/// each doubled, or three pairs.
pub open spec fn hex_rgb_spec(b: Seq<u8>) -> Option<(u8, u8, u8)> {
    if b.len() == 3 {
        match (hex_digit(b[0]), hex_digit(b[1]), hex_digit(b[2])) {
            (Some(r), Some(g), Some(c)) => Some(((r * 17) as u8, (g * 17) as u8, (c * 17) as u8)),
            _ => None,
        }
    } else if b.len() == 6 {
        match (pair_value(b[0], b[1]), pair_value(b[2], b[3]), pair_value(b[4], b[5])) {
            (Some(r), Some(g), Some(c)) => Some((r, g, c)),
            _ => None,
        }
    } else {
        None
    }
}

/// The byte offsets at which a color code is cut into its parts, as far as it
/// is read, fall between characters.
pub open spec fn hex_cuts_ok(b: Seq<u8>) -> bool {
    if b.len() == 3 {
        !is_continuation_byte(b[1]) && (hex_digit(b[0]) is Some ==> !is_continuation_byte(b[2]))
    } else if b.len() == 6 {
        !is_continuation_byte(b[2]) && (pair_value(b[0], b[1]) is Some ==> !is_continuation_byte(
            b[4],
        ))
    } else {
        true
    }
}

fn hex_digit_exec(b: u8) -> (res: Option<u8>)
    ensures
        res == hex_digit(b),
{
    if 0x30 <= b && b <= 0x39 {
        Some(b - 0x30)
    } else if 0x61 <= b && b <= 0x66 {
        Some(b - 0x61 + 10)
    } else if 0x41 <= b && b <= 0x46 {
        Some(b - 0x41 + 10)
    } else {
        None
    }
}

fn pair_value_exec(x: u8, y: u8) -> (res: Option<u8>)
    ensures
        res == pair_value(x, y),
{
    if x == 0x2b {
        hex_digit_exec(y)
    } else {
        match (hex_digit_exec(x), hex_digit_exec(y)) {
            (Some(a), Some(b)) => Some(a * 16 + b),
            _ => None,
        }
    }
}

/// The red, green and blue values of a color code such as `#fff` or
/// `#1e1e2e`: leading `#` signs are dropped, then three hexadecimal digits
/// (each doubled) or three pairs of them are read; any other code has none.
pub fn hex_rgb(hex: &str) -> (res: Option<(u8, u8, u8)>)
    requires
        hex_cuts_ok(encode_utf8(trim_hashes(hex@))),
    ensures
        res == hex_rgb_spec(encode_utf8(trim_hashes(hex@))),
{
    let chars = chars_of(hex);
    let mut start: usize = 0;
    assert(chars@.subrange(0, chars@.len() as int) == chars@);
    while start < chars.len() && chars[start] == '#'
        invariant
            0 <= start <= chars@.len(),
            chars@ == hex@,
            trim_hashes(chars@.subrange(start as int, chars@.len() as int)) == trim_hashes(hex@),
        decreases chars@.len() - start,
    {
        assert(chars@.subrange(start as int, chars@.len() as int).drop_first() == chars@.subrange(
            start + 1,
            chars@.len() as int,
        ));
        start += 1;
    }
    proof {
        if start == chars.len() {
            assert(chars@.subrange(start as int, chars@.len() as int).len() == 0);
        }
    }
    let rest = string_from(&chars, start, chars.len());
    let b = rest.as_str().as_bytes();
    if b.len() == 3 {
        match (hex_digit_exec(b[0]), hex_digit_exec(b[1]), hex_digit_exec(b[2])) {
            (Some(r), Some(g), Some(c)) => Some((r * 17, g * 17, c * 17)),
            _ => None,
        }
    } else if b.len() == 6 {
        match (pair_value_exec(b[0], b[1]), pair_value_exec(b[2], b[3]), pair_value_exec(b[4], b[5])) {
            (Some(r), Some(g), Some(c)) => Some((r, g, c)),
            _ => None,
        }
    } else {
        None
    }
}

/// Hexadecimal digits are read in either case: the ten decimal digits give
/// 0 to 9, the letters `a` to `f` and `A` to `F` give 10 to 15, an upper-case
/// letter reads as its lower-case form, and no other byte is a digit.
pub proof fn law_hex_digits_any_case(b: u8, k: u8)
    ensures
        k < 10 ==> hex_digit((0x30 + k) as u8) == Some(k),
        k < 6 ==> hex_digit((0x61 + k) as u8) == Some((10 + k) as u8),
        k < 6 ==> hex_digit((0x41 + k) as u8) == Some((10 + k) as u8),
        0x41 <= b <= 0x5a ==> hex_digit(b) == hex_digit((b + 32) as u8),
        hex_digit(b) is Some <==> (0x30 <= b <= 0x39 || 0x61 <= b <= 0x66 || 0x41 <= b <= 0x46),
        hex_digit(b) matches Some(v) ==> v < 16,
{
}

/// Two bytes read as a base-16 number: two digits give sixteen times the
/// first plus the second, a `+` sign and a digit give that digit, and any
/// other pair gives nothing.
pub proof fn law_pairs_are_base_sixteen(x: u8, y: u8)
    ensures
        x != 0x2b && hex_digit(x) is Some && hex_digit(y) is Some ==> pair_value(x, y) == Some(
            (hex_digit(x)->0 * 16 + hex_digit(y)->0) as u8,
        ) && hex_digit(x)->0 * 16 + hex_digit(y)->0 <= 255,
        x == 0x2b ==> pair_value(x, y) == hex_digit(y),
        x != 0x2b && (hex_digit(x) is None || hex_digit(y) is None) ==> pair_value(x, y) is None,
{
}

/// A color code reads the same whatever the case of its letters: for six
/// bytes, each taken either as it is or in lower case, the colors agree.
pub proof fn law_hex_codes_ignore_case(b: Seq<u8>, c: Seq<u8>)
    requires
        b.len() == 6 || b.len() == 3,
        c.len() == b.len(),
        forall|i: int| 0 <= i < b.len() ==> #[trigger] c[i] == b[i] || (0x41 <= b[i] <= 0x5a && c[i] == b[i] + 32),
    ensures
        hex_rgb_spec(b) == hex_rgb_spec(c),
{
    assert forall|i: int| 0 <= i < b.len() implies #[trigger] hex_digit(b[i]) == hex_digit(c[i]) by {
        law_hex_digits_any_case(b[i], 0);
    }
    if b.len() == 6 {
        assert(hex_digit(b[0]) == hex_digit(c[0]) && hex_digit(b[1]) == hex_digit(c[1]));
        assert(hex_digit(b[2]) == hex_digit(c[2]) && hex_digit(b[3]) == hex_digit(c[3]));
        assert(hex_digit(b[4]) == hex_digit(c[4]) && hex_digit(b[5]) == hex_digit(c[5]));
        assert(b[0] == 0x2b <==> c[0] == 0x2b);
        assert(b[2] == 0x2b <==> c[2] == 0x2b);
        assert(b[4] == 0x2b <==> c[4] == 0x2b);
    } else {
        assert(hex_digit(b[0]) == hex_digit(c[0]) && hex_digit(b[1]) == hex_digit(c[1]));
        assert(hex_digit(b[2]) == hex_digit(c[2]));
    }
}

/// A short color code names the color of the long code that writes each of
/// its digits twice: `#abc` is `#aabbcc`.
pub proof fn law_short_hex_doubles_digits(x: u8, y: u8, z: u8)
    requires
        hex_digit(x) is Some,
        hex_digit(y) is Some,
        hex_digit(z) is Some,
    ensures
        hex_rgb_spec(seq![x, y, z]) is Some,
        hex_rgb_spec(seq![x, y, z]) == hex_rgb_spec(seq![x, x, y, y, z, z]),
{
}

/// A character of a bitmap font: `height` rows of `width` cells, row after
/// row, `true` where the cell is lit.
#[derive(Debug, Clone)]
pub struct Glyph {
    pub width: usize,
    pub height: usize,
    pub data: Vec<bool>,
}

/// The cells of one pattern row: lit where the row has `#`.
pub open spec fn row_cells(row: Seq<char>) -> Seq<bool> {
    Seq::new(row.len(), |i: int| row[i] == '#')
}

/// The cells of a pattern, row after row.
pub open spec fn pattern_cells(rows: Seq<Seq<char>>) -> Seq<bool>
    decreases rows.len(),
{
    if rows.len() == 0 {
        Seq::empty()
    } else {
        pattern_cells(rows.drop_last()) + row_cells(rows.last())
    }
}

/// The characters of each row of a pattern.
pub open spec fn rows_view(p: Seq<&str>) -> Seq<Seq<char>> {
    Seq::new(p.len(), |i: int| p[i]@)
}

/// The width a pattern gives its glyph: the length in bytes of its first row.
pub open spec fn pattern_width(p: Seq<&str>) -> nat {
    if p.len() == 0 {
        0
    } else {
        encode_utf8(p[0]@).len()
    }
}

/// A pattern whose rows all have `w` characters has `w` cells per row.
pub proof fn lemma_pattern_cells_len(rows: Seq<Seq<char>>, w: nat)
    requires
        forall|i: int| 0 <= i < rows.len() ==> #[trigger] rows[i].len() == w,
    ensures
        pattern_cells(rows).len() == rows.len() * w,
    decreases rows.len(),
{
    if rows.len() > 0 {
        lemma_pattern_cells_len(rows.drop_last(), w);
        assert((rows.len() - 1) * w + w == rows.len() * w) by (nonlinear_arith);
    }
}

impl Glyph {
    /// The glyph drawn by `pattern`, one string per row, `#` for a lit cell.
    pub fn from_pattern(pattern: &[&str]) -> (res: Glyph)
        requires
            pattern_width(pattern@) * pattern@.len() <= usize::MAX,
        ensures
            res.height == pattern@.len(),
            res.width == pattern_width(pattern@),
            res.data@ == pattern_cells(rows_view(pattern@)),
    {
        let height = pattern.len();
        proof {
            if height > 0 {
                assert(pattern_width(pattern@) <= pattern_width(pattern@) * pattern@.len()) by (nonlinear_arith)
                    requires pattern@.len() >= 1;
            }
        }
        let width = if height == 0 { 0 } else { pattern[0].len() };
        let mut data: Vec<bool> = Vec::new();
        let mut i: usize = 0;
        while i < height
            invariant
                0 <= i <= height,
                height == pattern@.len(),
                data@ == pattern_cells(rows_view(pattern@).take(i as int)),
            decreases height - i,
        {
            let row = pattern[i];
            let ghost before = data@;
            for c in it: row.chars()
                invariant
                    it.seq() == row@,
                    data@ == before + row_cells(row@).take(it.index() as int),
            {
                data.push(c == '#');
                assert(row_cells(row@).take(it.index() + 1) == row_cells(row@).take(
                    it.index() as int,
                ).push(c == '#'));
            }
            assert(row_cells(row@).take(row@.len() as int) == row_cells(row@));
            assert(rows_view(pattern@).take(i + 1).drop_last() == rows_view(pattern@).take(
                i as int,
            ));
            i += 1;
        }
        assert(rows_view(pattern@).take(height as int) == rows_view(pattern@));
        Glyph { width, height, data }
    }

    /// Whether the cell in column `x` of row `y` is lit.
    pub fn index(&self, x: usize, y: usize) -> (res: bool)
        requires
            y * self.width + x < self.data@.len(),
        ensures
            res == self.data@[y * self.width + x],
    {
        let len: usize = self.data.len();
        proof {
            assert(0 <= y * self.width <= len) by (nonlinear_arith)
                requires y * self.width + x < len;
        }
        self.data[y * self.width + x]
    }
}

} // verus!
