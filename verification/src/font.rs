use vstd::prelude::*;
use vstd::utf8::is_ascii_chars_encode_utf8;

use crate::render::{lemma_pattern_cells_len, pattern_cells, rows_view, Glyph};

verus! {

/// The characters the built-in font draws, in the order [`font_glyphs`] gives them.
pub open spec fn font_chars() -> Seq<char> {
    seq!['A', 'B', 'C', 'D', 'E', 'F', 'G', 'H', 'I', 'J', 'K', 'L', 'M', 'N', 'O', 'P', 'Q', 'R', 'S', 'T', 'U', 'V', 'W', 'X', 'Y', 'Z', 'a', 'b', 'c', 'd', 'e', 'f', 'g', 'h', 'i', 'j', 'k', 'l', 'm', 'n', 'o', 'p', 'q', 'r', 's', 't', 'u', 'v', 'w', 'x', 'y', 'z', '0', '1', '2', '3', '4', '5', '6', '7', '8', '9', ':', '.', '-', ' ', '•']
}

/// The pattern the built-in font draws `c` with: seven rows, `#` for a lit
/// cell. A character the font does not draw has no rows.
pub open spec fn glyph_pattern(c: char) -> Seq<Seq<char>> {
    if c == 'A' {
        seq![" ### "@, "#   #"@, "#   #"@, "#####"@, "#   #"@, "#   #"@, "#   #"@]
    } else if c == 'B' {
        seq!["#### "@, "#   #"@, "#   #"@, "#### "@, "#   #"@, "#   #"@, "#### "@]
    } else if c == 'C' {
        seq![" ### "@, "#   #"@, "#    "@, "#    "@, "#    "@, "#   #"@, " ### "@]
    } else if c == 'D' {
        seq!["#### "@, "#   #"@, "#   #"@, "#   #"@, "#   #"@, "#   #"@, "#### "@]
    } else if c == 'E' {
        seq!["#####"@, "#    "@, "#    "@, "#### "@, "#    "@, "#    "@, "#####"@]
    } else if c == 'F' {
        seq!["#####"@, "#    "@, "#    "@, "#### "@, "#    "@, "#    "@, "#    "@]
    } else if c == 'G' {
        seq![" ### "@, "#   #"@, "#    "@, "#  ##"@, "#   #"@, "#   #"@, " ### "@]
    } else if c == 'H' {
        seq!["#   #"@, "#   #"@, "#   #"@, "#####"@, "#   #"@, "#   #"@, "#   #"@]
    } else if c == 'I' {
        seq![" ### "@, "  #  "@, "  #  "@, "  #  "@, "  #  "@, "  #  "@, " ### "@]
    } else if c == 'J' {
        seq!["  ###"@, "   #"@, "   #"@, "   #"@, "#  #"@, "#  #"@, " ## "@]
    } else if c == 'K' {
        seq!["#   #"@, "#  # "@, "# #  "@, "##   "@, "# #  "@, "#  # "@, "#   #"@]
    } else if c == 'L' {
        seq!["#    "@, "#    "@, "#    "@, "#    "@, "#    "@, "#    "@, "#####"@]
    } else if c == 'M' {
        seq!["#   #"@, "## ##"@, "# # #"@, "#   #"@, "#   #"@, "#   #"@, "#   #"@]
    } else if c == 'N' {
        seq!["#   #"@, "##  #"@, "# # #"@, "#  ##"@, "#   #"@, "#   #"@, "#   #"@]
    } else if c == 'O' {
        seq![" ### "@, "#   #"@, "#   #"@, "#   #"@, "#   #"@, "#   #"@, " ### "@]
    } else if c == 'P' {
        seq!["#### "@, "#   #"@, "#   #"@, "#### "@, "#    "@, "#    "@, "#    "@]
    } else if c == 'Q' {
        seq![" ### "@, "#   #"@, "#   #"@, "#   #"@, "# # #"@, "#  # "@, " ## #"@]
    } else if c == 'R' {
        seq!["#### "@, "#   #"@, "#   #"@, "#### "@, "# #  "@, "#  # "@, "#   #"@]
    } else if c == 'S' {
        seq![" ####"@, "#    "@, "#    "@, " ### "@, "    #"@, "    #"@, "#### "@]
    } else if c == 'T' {
        seq!["#####"@, "  #  "@, "  #  "@, "  #  "@, "  #  "@, "  #  "@, "  #  "@]
    } else if c == 'U' {
        seq!["#   #"@, "#   #"@, "#   #"@, "#   #"@, "#   #"@, "#   #"@, " ### "@]
    } else if c == 'V' {
        seq!["#   #"@, "#   #"@, "#   #"@, "#   #"@, "#   #"@, " # # "@, "  #  "@]
    } else if c == 'W' {
        seq!["#   #"@, "#   #"@, "#   #"@, "# # #"@, "# # #"@, "## ##"@, "#   #"@]
    } else if c == 'X' {
        seq!["#   #"@, "#   #"@, " # # "@, "  #  "@, " # # "@, "#   #"@, "#   #"@]
    } else if c == 'Y' {
        seq!["#   #"@, "#   #"@, " # # "@, "  #  "@, "  #  "@, "  #  "@, "  #  "@]
    } else if c == 'Z' {
        seq!["#####"@, "    #"@, "   # "@, "  #  "@, " #   "@, "#    "@, "#####"@]
    } else if c == 'a' {
        seq!["     "@, "     "@, " ### "@, "    #"@, " ####"@, "#   #"@, " ####"@]
    } else if c == 'b' {
        seq!["#    "@, "#    "@, "#### "@, "#   #"@, "#   #"@, "#   #"@, "#### "@]
    } else if c == 'c' {
        seq!["     "@, "     "@, " ### "@, "#   #"@, "#    "@, "#   #"@, " ### "@]
    } else if c == 'd' {
        seq!["    #"@, "    #"@, " ####"@, "#   #"@, "#   #"@, "#   #"@, " ####"@]
    } else if c == 'e' {
        seq!["     "@, "     "@, " ### "@, "#   #"@, "#####"@, "#    "@, " ### "@]
    } else if c == 'f' {
        seq!["  ## "@, " #  #"@, " #   "@, "###  "@, " #   "@, " #   "@, " #   "@]
    } else if c == 'g' {
        seq!["     "@, "     "@, " ####"@, "#   #"@, "#   #"@, " ####"@, "    #"@]
    } else if c == 'h' {
        seq!["#    "@, "#    "@, "#### "@, "#   #"@, "#   #"@, "#   #"@, "#   #"@]
    } else if c == 'i' {
        seq!["  #  "@, "     "@, " ##  "@, "  #  "@, "  #  "@, "  #  "@, " ### "@]
    } else if c == 'j' {
        seq!["   # "@, "     "@, "  ## "@, "   # "@, "   # "@, "#  # "@, " ##  "@]
    } else if c == 'k' {
        seq!["#    "@, "#    "@, "#  # "@, "# #  "@, "##   "@, "# #  "@, "#  # "@]
    } else if c == 'l' {
        seq![" ##  "@, "  #  "@, "  #  "@, "  #  "@, "  #  "@, "  #  "@, " ### "@]
    } else if c == 'm' {
        seq!["     "@, "     "@, "## # "@, "# # #"@, "# # #"@, "# # #"@, "#   #"@]
    } else if c == 'n' {
        seq!["     "@, "     "@, "#### "@, "#   #"@, "#   #"@, "#   #"@, "#   #"@]
    } else if c == 'o' {
        seq!["     "@, "     "@, " ### "@, "#   #"@, "#   #"@, "#   #"@, " ### "@]
    } else if c == 'p' {
        seq!["     "@, "     "@, "#### "@, "#   #"@, "#   #"@, "#### "@, "#    "@]
    } else if c == 'q' {
        seq!["     "@, "     "@, " ####"@, "#   #"@, "#   #"@, " ####"@, "    #"@]
    } else if c == 'r' {
        seq!["     "@, "     "@, "# ## "@, "##  #"@, "#    "@, "#    "@, "#    "@]
    } else if c == 's' {
        seq!["     "@, "     "@, " ####"@, "#    "@, " ### "@, "    #"@, "#### "@]
    } else if c == 't' {
        seq!["  #  "@, "  #  "@, " ### "@, "  #  "@, "  #  "@, "  #  "@, "  ## "@]
    } else if c == 'u' {
        seq!["     "@, "     "@, "#   #"@, "#   #"@, "#   #"@, "#   #"@, " ####"@]
    } else if c == 'v' {
        seq!["     "@, "     "@, "#   #"@, "#   #"@, "#   #"@, " # # "@, "  #  "@]
    } else if c == 'w' {
        seq!["     "@, "     "@, "#   #"@, "# # #"@, "# # #"@, "## ##"@, "#   #"@]
    } else if c == 'x' {
        seq!["     "@, "     "@, "#   #"@, " # # "@, "  #  "@, " # # "@, "#   #"@]
    } else if c == 'y' {
        seq!["     "@, "     "@, "#   #"@, "#   #"@, "#   #"@, " ####"@, "    #"@]
    } else if c == 'z' {
        seq!["     "@, "     "@, "#####"@, "   # "@, "  #  "@, " #   "@, "#####"@]
    } else if c == '0' {
        seq![" ### "@, "#   #"@, "#  ##"@, "# # #"@, "##  #"@, "#   #"@, " ### "@]
    } else if c == '1' {
        seq!["  #  "@, " ##  "@, "  #  "@, "  #  "@, "  #  "@, "  #  "@, " ### "@]
    } else if c == '2' {
        seq![" ### "@, "#   #"@, "    #"@, "   # "@, "  #  "@, " #   "@, "#####"@]
    } else if c == '3' {
        seq![" ### "@, "#   #"@, "    #"@, " ### "@, "    #"@, "#   #"@, " ### "@]
    } else if c == '4' {
        seq!["   # "@, "  ## "@, " # # "@, "#  # "@, "#####"@, "   # "@, "   # "@]
    } else if c == '5' {
        seq!["#####"@, "#    "@, "#    "@, "#### "@, "    #"@, "#   #"@, " ### "@]
    } else if c == '6' {
        seq![" ### "@, "#   #"@, "#    "@, "#### "@, "#   #"@, "#   #"@, " ### "@]
    } else if c == '7' {
        seq!["#####"@, "    #"@, "   # "@, "   # "@, "  #  "@, "  #  "@, "  #  "@]
    } else if c == '8' {
        seq![" ### "@, "#   #"@, "#   #"@, " ### "@, "#   #"@, "#   #"@, " ### "@]
    } else if c == '9' {
        seq![" ### "@, "#   #"@, "#   #"@, " ####"@, "    #"@, "#   #"@, " ### "@]
    } else if c == ':' {
        seq!["     "@, "  #  "@, "     "@, "     "@, "     "@, "  #  "@, "     "@]
    } else if c == '.' {
        seq!["     "@, "     "@, "     "@, "     "@, "     "@, "  ## "@, "  ## "@]
    } else if c == '-' {
        seq!["     "@, "     "@, "     "@, " ### "@, "     "@, "     "@, "     "@]
    } else if c == ' ' {
        seq!["     "@, "     "@, "     "@, "     "@, "     "@, "     "@, "     "@]
    } else if c == '•' {
        seq!["     "@, "     "@, " ### "@, " ### "@, " ### "@, "     "@, "     "@]
    } else {
        Seq::empty()
    }
}

/// Entry `i` of the font: the character `font_chars()[i]` and the glyph of its
/// pattern, seven rows tall and five cells wide. All its rows have five cells
/// but for `J`, whose rows below the first have four, so it has 29 cells.
pub open spec fn font_entry_ok(e: (char, Glyph), i: int) -> bool {
    &&& 0 <= i < font_chars().len()
    &&& e.0 == font_chars()[i]
    &&& e.1.height == 7
    &&& e.1.width == 5
    &&& e.1.data@ == pattern_cells(glyph_pattern(e.0))
    &&& e.1.data@.len() == (if e.0 == 'J' { 29int } else { 35int })
}

/// Every entry of `v` is the font entry at its position.
pub open spec fn font_prefix_ok(v: Seq<(char, Glyph)>) -> bool {
    forall|i: int| 0 <= i < v.len() ==> #[trigger] font_entry_ok(v[i], i)
}

/// The glyph of a pattern of seven rows, the first of five ASCII characters.
fn glyph7(r0: &str, r1: &str, r2: &str, r3: &str, r4: &str, r5: &str, r6: &str) -> (res: Glyph)
    requires
        vstd::utf8::is_ascii_chars(r0@),
        r0@.len() == 5,
    ensures
        res.height == 7,
        res.width == 5,
        res.data@ == pattern_cells(seq![r0@, r1@, r2@, r3@, r4@, r5@, r6@]),
{
    let mut rows: Vec<&str> = Vec::new();
    rows.push(r0);
    rows.push(r1);
    rows.push(r2);
    rows.push(r3);
    rows.push(r4);
    rows.push(r5);
    rows.push(r6);
    proof {
        is_ascii_chars_encode_utf8(r0@);
        assert(rows_view(rows@) == seq![r0@, r1@, r2@, r3@, r4@, r5@, r6@]);
    }
    Glyph::from_pattern(rows.as_slice())
}

/// The 35 cells of seven rows of five.
proof fn lemma_cells_7x5(r: Seq<Seq<char>>)
    requires
        r.len() == 7,
        forall|i: int| 0 <= i < 7 ==> #[trigger] r[i].len() == 5,
    ensures
        pattern_cells(r).len() == 35,
{
    lemma_pattern_cells_len(r, 5);
}

/// The 29 cells of a row of five above six rows of four.
proof fn lemma_cells_narrow_tail(r: Seq<Seq<char>>)
    requires
        r.len() == 7,
        r[0].len() == 5,
        forall|i: int| 1 <= i < 7 ==> #[trigger] r[i].len() == 4,
    ensures
        pattern_cells(r).len() == 29,
{
    reveal_with_fuel(pattern_cells, 8);
    assert(r.drop_last().drop_last().drop_last().drop_last().drop_last().drop_last().drop_last().len() == 0);
}


fn push_font_part0(v: &mut Vec<(char, Glyph)>)
    requires
        old(v)@.len() == 0,
        font_prefix_ok(old(v)@),
    ensures
        final(v)@.len() == 17,
        font_prefix_ok(final(v)@),
{
    proof {
        reveal_strlit(" ### "); reveal_strlit("#   #"); reveal_strlit("#####");
        lemma_cells_7x5(seq![" ### "@, "#   #"@, "#   #"@, "#####"@, "#   #"@, "#   #"@, "#   #"@]);
    }
    let g = glyph7(" ### ", "#   #", "#   #", "#####", "#   #", "#   #", "#   #");
    v.push(('A', g));
    proof {
        reveal_strlit("#   #"); reveal_strlit("#### ");
        lemma_cells_7x5(seq!["#### "@, "#   #"@, "#   #"@, "#### "@, "#   #"@, "#   #"@, "#### "@]);
    }
    let g = glyph7("#### ", "#   #", "#   #", "#### ", "#   #", "#   #", "#### ");
    v.push(('B', g));
    proof {
        reveal_strlit(" ### "); reveal_strlit("#    "); reveal_strlit("#   #");
        lemma_cells_7x5(seq![" ### "@, "#   #"@, "#    "@, "#    "@, "#    "@, "#   #"@, " ### "@]);
    }
    let g = glyph7(" ### ", "#   #", "#    ", "#    ", "#    ", "#   #", " ### ");
    v.push(('C', g));
    proof {
        reveal_strlit("#   #"); reveal_strlit("#### ");
        lemma_cells_7x5(seq!["#### "@, "#   #"@, "#   #"@, "#   #"@, "#   #"@, "#   #"@, "#### "@]);
    }
    let g = glyph7("#### ", "#   #", "#   #", "#   #", "#   #", "#   #", "#### ");
    v.push(('D', g));
    proof {
        reveal_strlit("#    "); reveal_strlit("#### "); reveal_strlit("#####");
        lemma_cells_7x5(seq!["#####"@, "#    "@, "#    "@, "#### "@, "#    "@, "#    "@, "#####"@]);
    }
    let g = glyph7("#####", "#    ", "#    ", "#### ", "#    ", "#    ", "#####");
    v.push(('E', g));
    proof {
        reveal_strlit("#    "); reveal_strlit("#### "); reveal_strlit("#####");
        lemma_cells_7x5(seq!["#####"@, "#    "@, "#    "@, "#### "@, "#    "@, "#    "@, "#    "@]);
    }
    let g = glyph7("#####", "#    ", "#    ", "#### ", "#    ", "#    ", "#    ");
    v.push(('F', g));
    proof {
        reveal_strlit(" ### "); reveal_strlit("#    "); reveal_strlit("#   #"); reveal_strlit("#  ##");
        lemma_cells_7x5(seq![" ### "@, "#   #"@, "#    "@, "#  ##"@, "#   #"@, "#   #"@, " ### "@]);
    }
    let g = glyph7(" ### ", "#   #", "#    ", "#  ##", "#   #", "#   #", " ### ");
    v.push(('G', g));
    proof {
        reveal_strlit("#   #"); reveal_strlit("#####");
        lemma_cells_7x5(seq!["#   #"@, "#   #"@, "#   #"@, "#####"@, "#   #"@, "#   #"@, "#   #"@]);
    }
    let g = glyph7("#   #", "#   #", "#   #", "#####", "#   #", "#   #", "#   #");
    v.push(('H', g));
    proof {
        reveal_strlit("  #  "); reveal_strlit(" ### ");
        lemma_cells_7x5(seq![" ### "@, "  #  "@, "  #  "@, "  #  "@, "  #  "@, "  #  "@, " ### "@]);
    }
    let g = glyph7(" ### ", "  #  ", "  #  ", "  #  ", "  #  ", "  #  ", " ### ");
    v.push(('I', g));
    proof {
        reveal_strlit("   #"); reveal_strlit("  ###"); reveal_strlit(" ## "); reveal_strlit("#  #");
        lemma_cells_narrow_tail(seq!["  ###"@, "   #"@, "   #"@, "   #"@, "#  #"@, "#  #"@, " ## "@]);
    }
    let g = glyph7("  ###", "   #", "   #", "   #", "#  #", "#  #", " ## ");
    v.push(('J', g));
    proof {
        reveal_strlit("#   #"); reveal_strlit("#  # "); reveal_strlit("# #  "); reveal_strlit("##   ");
        lemma_cells_7x5(seq!["#   #"@, "#  # "@, "# #  "@, "##   "@, "# #  "@, "#  # "@, "#   #"@]);
    }
    let g = glyph7("#   #", "#  # ", "# #  ", "##   ", "# #  ", "#  # ", "#   #");
    v.push(('K', g));
    proof {
        reveal_strlit("#    "); reveal_strlit("#####");
        lemma_cells_7x5(seq!["#    "@, "#    "@, "#    "@, "#    "@, "#    "@, "#    "@, "#####"@]);
    }
    let g = glyph7("#    ", "#    ", "#    ", "#    ", "#    ", "#    ", "#####");
    v.push(('L', g));
    proof {
        reveal_strlit("#   #"); reveal_strlit("# # #"); reveal_strlit("## ##");
        lemma_cells_7x5(seq!["#   #"@, "## ##"@, "# # #"@, "#   #"@, "#   #"@, "#   #"@, "#   #"@]);
    }
    let g = glyph7("#   #", "## ##", "# # #", "#   #", "#   #", "#   #", "#   #");
    v.push(('M', g));
    proof {
        reveal_strlit("#   #"); reveal_strlit("#  ##"); reveal_strlit("# # #"); reveal_strlit("##  #");
        lemma_cells_7x5(seq!["#   #"@, "##  #"@, "# # #"@, "#  ##"@, "#   #"@, "#   #"@, "#   #"@]);
    }
    let g = glyph7("#   #", "##  #", "# # #", "#  ##", "#   #", "#   #", "#   #");
    v.push(('N', g));
    proof {
        reveal_strlit(" ### "); reveal_strlit("#   #");
        lemma_cells_7x5(seq![" ### "@, "#   #"@, "#   #"@, "#   #"@, "#   #"@, "#   #"@, " ### "@]);
    }
    let g = glyph7(" ### ", "#   #", "#   #", "#   #", "#   #", "#   #", " ### ");
    v.push(('O', g));
    proof {
        reveal_strlit("#    "); reveal_strlit("#   #"); reveal_strlit("#### ");
        lemma_cells_7x5(seq!["#### "@, "#   #"@, "#   #"@, "#### "@, "#    "@, "#    "@, "#    "@]);
    }
    let g = glyph7("#### ", "#   #", "#   #", "#### ", "#    ", "#    ", "#    ");
    v.push(('P', g));
    proof {
        reveal_strlit(" ## #"); reveal_strlit(" ### "); reveal_strlit("#   #"); reveal_strlit("#  # "); reveal_strlit("# # #");
        lemma_cells_7x5(seq![" ### "@, "#   #"@, "#   #"@, "#   #"@, "# # #"@, "#  # "@, " ## #"@]);
    }
    let g = glyph7(" ### ", "#   #", "#   #", "#   #", "# # #", "#  # ", " ## #");
    v.push(('Q', g));
}

fn push_font_part1(v: &mut Vec<(char, Glyph)>)
    requires
        old(v)@.len() == 17,
        font_prefix_ok(old(v)@),
    ensures
        final(v)@.len() == 34,
        font_prefix_ok(final(v)@),
{
    proof {
        reveal_strlit("#   #"); reveal_strlit("#  # "); reveal_strlit("# #  "); reveal_strlit("#### ");
        lemma_cells_7x5(seq!["#### "@, "#   #"@, "#   #"@, "#### "@, "# #  "@, "#  # "@, "#   #"@]);
    }
    let g = glyph7("#### ", "#   #", "#   #", "#### ", "# #  ", "#  # ", "#   #");
    v.push(('R', g));
    proof {
        reveal_strlit("    #"); reveal_strlit(" ### "); reveal_strlit(" ####"); reveal_strlit("#    "); reveal_strlit("#### ");
        lemma_cells_7x5(seq![" ####"@, "#    "@, "#    "@, " ### "@, "    #"@, "    #"@, "#### "@]);
    }
    let g = glyph7(" ####", "#    ", "#    ", " ### ", "    #", "    #", "#### ");
    v.push(('S', g));
    proof {
        reveal_strlit("  #  "); reveal_strlit("#####");
        lemma_cells_7x5(seq!["#####"@, "  #  "@, "  #  "@, "  #  "@, "  #  "@, "  #  "@, "  #  "@]);
    }
    let g = glyph7("#####", "  #  ", "  #  ", "  #  ", "  #  ", "  #  ", "  #  ");
    v.push(('T', g));
    proof {
        reveal_strlit(" ### "); reveal_strlit("#   #");
        lemma_cells_7x5(seq!["#   #"@, "#   #"@, "#   #"@, "#   #"@, "#   #"@, "#   #"@, " ### "@]);
    }
    let g = glyph7("#   #", "#   #", "#   #", "#   #", "#   #", "#   #", " ### ");
    v.push(('U', g));
    proof {
        reveal_strlit("  #  "); reveal_strlit(" # # "); reveal_strlit("#   #");
        lemma_cells_7x5(seq!["#   #"@, "#   #"@, "#   #"@, "#   #"@, "#   #"@, " # # "@, "  #  "@]);
    }
    let g = glyph7("#   #", "#   #", "#   #", "#   #", "#   #", " # # ", "  #  ");
    v.push(('V', g));
    proof {
        reveal_strlit("#   #"); reveal_strlit("# # #"); reveal_strlit("## ##");
        lemma_cells_7x5(seq!["#   #"@, "#   #"@, "#   #"@, "# # #"@, "# # #"@, "## ##"@, "#   #"@]);
    }
    let g = glyph7("#   #", "#   #", "#   #", "# # #", "# # #", "## ##", "#   #");
    v.push(('W', g));
    proof {
        reveal_strlit("  #  "); reveal_strlit(" # # "); reveal_strlit("#   #");
        lemma_cells_7x5(seq!["#   #"@, "#   #"@, " # # "@, "  #  "@, " # # "@, "#   #"@, "#   #"@]);
    }
    let g = glyph7("#   #", "#   #", " # # ", "  #  ", " # # ", "#   #", "#   #");
    v.push(('X', g));
    proof {
        reveal_strlit("  #  "); reveal_strlit(" # # "); reveal_strlit("#   #");
        lemma_cells_7x5(seq!["#   #"@, "#   #"@, " # # "@, "  #  "@, "  #  "@, "  #  "@, "  #  "@]);
    }
    let g = glyph7("#   #", "#   #", " # # ", "  #  ", "  #  ", "  #  ", "  #  ");
    v.push(('Y', g));
    proof {
        reveal_strlit("    #"); reveal_strlit("   # "); reveal_strlit("  #  "); reveal_strlit(" #   "); reveal_strlit("#    "); reveal_strlit("#####");
        lemma_cells_7x5(seq!["#####"@, "    #"@, "   # "@, "  #  "@, " #   "@, "#    "@, "#####"@]);
    }
    let g = glyph7("#####", "    #", "   # ", "  #  ", " #   ", "#    ", "#####");
    v.push(('Z', g));
    proof {
        reveal_strlit("     "); reveal_strlit("    #"); reveal_strlit(" ### "); reveal_strlit(" ####"); reveal_strlit("#   #");
        lemma_cells_7x5(seq!["     "@, "     "@, " ### "@, "    #"@, " ####"@, "#   #"@, " ####"@]);
    }
    let g = glyph7("     ", "     ", " ### ", "    #", " ####", "#   #", " ####");
    v.push(('a', g));
    proof {
        reveal_strlit("#    "); reveal_strlit("#   #"); reveal_strlit("#### ");
        lemma_cells_7x5(seq!["#    "@, "#    "@, "#### "@, "#   #"@, "#   #"@, "#   #"@, "#### "@]);
    }
    let g = glyph7("#    ", "#    ", "#### ", "#   #", "#   #", "#   #", "#### ");
    v.push(('b', g));
    proof {
        reveal_strlit("     "); reveal_strlit(" ### "); reveal_strlit("#    "); reveal_strlit("#   #");
        lemma_cells_7x5(seq!["     "@, "     "@, " ### "@, "#   #"@, "#    "@, "#   #"@, " ### "@]);
    }
    let g = glyph7("     ", "     ", " ### ", "#   #", "#    ", "#   #", " ### ");
    v.push(('c', g));
    proof {
        reveal_strlit("    #"); reveal_strlit(" ####"); reveal_strlit("#   #");
        lemma_cells_7x5(seq!["    #"@, "    #"@, " ####"@, "#   #"@, "#   #"@, "#   #"@, " ####"@]);
    }
    let g = glyph7("    #", "    #", " ####", "#   #", "#   #", "#   #", " ####");
    v.push(('d', g));
    proof {
        reveal_strlit("     "); reveal_strlit(" ### "); reveal_strlit("#    "); reveal_strlit("#   #"); reveal_strlit("#####");
        lemma_cells_7x5(seq!["     "@, "     "@, " ### "@, "#   #"@, "#####"@, "#    "@, " ### "@]);
    }
    let g = glyph7("     ", "     ", " ### ", "#   #", "#####", "#    ", " ### ");
    v.push(('e', g));
    proof {
        reveal_strlit("  ## "); reveal_strlit(" #   "); reveal_strlit(" #  #"); reveal_strlit("###  ");
        lemma_cells_7x5(seq!["  ## "@, " #  #"@, " #   "@, "###  "@, " #   "@, " #   "@, " #   "@]);
    }
    let g = glyph7("  ## ", " #  #", " #   ", "###  ", " #   ", " #   ", " #   ");
    v.push(('f', g));
    proof {
        reveal_strlit("     "); reveal_strlit("    #"); reveal_strlit(" ####"); reveal_strlit("#   #");
        lemma_cells_7x5(seq!["     "@, "     "@, " ####"@, "#   #"@, "#   #"@, " ####"@, "    #"@]);
    }
    let g = glyph7("     ", "     ", " ####", "#   #", "#   #", " ####", "    #");
    v.push(('g', g));
    proof {
        reveal_strlit("#    "); reveal_strlit("#   #"); reveal_strlit("#### ");
        lemma_cells_7x5(seq!["#    "@, "#    "@, "#### "@, "#   #"@, "#   #"@, "#   #"@, "#   #"@]);
    }
    let g = glyph7("#    ", "#    ", "#### ", "#   #", "#   #", "#   #", "#   #");
    v.push(('h', g));
}

fn push_font_part2(v: &mut Vec<(char, Glyph)>)
    requires
        old(v)@.len() == 34,
        font_prefix_ok(old(v)@),
    ensures
        final(v)@.len() == 52,
        font_prefix_ok(final(v)@),
{
    proof {
        reveal_strlit("     "); reveal_strlit("  #  "); reveal_strlit(" ##  "); reveal_strlit(" ### ");
        lemma_cells_7x5(seq!["  #  "@, "     "@, " ##  "@, "  #  "@, "  #  "@, "  #  "@, " ### "@]);
    }
    let g = glyph7("  #  ", "     ", " ##  ", "  #  ", "  #  ", "  #  ", " ### ");
    v.push(('i', g));
    proof {
        reveal_strlit("     "); reveal_strlit("   # "); reveal_strlit("  ## "); reveal_strlit(" ##  "); reveal_strlit("#  # ");
        lemma_cells_7x5(seq!["   # "@, "     "@, "  ## "@, "   # "@, "   # "@, "#  # "@, " ##  "@]);
    }
    let g = glyph7("   # ", "     ", "  ## ", "   # ", "   # ", "#  # ", " ##  ");
    v.push(('j', g));
    proof {
        reveal_strlit("#    "); reveal_strlit("#  # "); reveal_strlit("# #  "); reveal_strlit("##   ");
        lemma_cells_7x5(seq!["#    "@, "#    "@, "#  # "@, "# #  "@, "##   "@, "# #  "@, "#  # "@]);
    }
    let g = glyph7("#    ", "#    ", "#  # ", "# #  ", "##   ", "# #  ", "#  # ");
    v.push(('k', g));
    proof {
        reveal_strlit("  #  "); reveal_strlit(" ##  "); reveal_strlit(" ### ");
        lemma_cells_7x5(seq![" ##  "@, "  #  "@, "  #  "@, "  #  "@, "  #  "@, "  #  "@, " ### "@]);
    }
    let g = glyph7(" ##  ", "  #  ", "  #  ", "  #  ", "  #  ", "  #  ", " ### ");
    v.push(('l', g));
    proof {
        reveal_strlit("     "); reveal_strlit("#   #"); reveal_strlit("# # #"); reveal_strlit("## # ");
        lemma_cells_7x5(seq!["     "@, "     "@, "## # "@, "# # #"@, "# # #"@, "# # #"@, "#   #"@]);
    }
    let g = glyph7("     ", "     ", "## # ", "# # #", "# # #", "# # #", "#   #");
    v.push(('m', g));
    proof {
        reveal_strlit("     "); reveal_strlit("#   #"); reveal_strlit("#### ");
        lemma_cells_7x5(seq!["     "@, "     "@, "#### "@, "#   #"@, "#   #"@, "#   #"@, "#   #"@]);
    }
    let g = glyph7("     ", "     ", "#### ", "#   #", "#   #", "#   #", "#   #");
    v.push(('n', g));
    proof {
        reveal_strlit("     "); reveal_strlit(" ### "); reveal_strlit("#   #");
        lemma_cells_7x5(seq!["     "@, "     "@, " ### "@, "#   #"@, "#   #"@, "#   #"@, " ### "@]);
    }
    let g = glyph7("     ", "     ", " ### ", "#   #", "#   #", "#   #", " ### ");
    v.push(('o', g));
    proof {
        reveal_strlit("     "); reveal_strlit("#    "); reveal_strlit("#   #"); reveal_strlit("#### ");
        lemma_cells_7x5(seq!["     "@, "     "@, "#### "@, "#   #"@, "#   #"@, "#### "@, "#    "@]);
    }
    let g = glyph7("     ", "     ", "#### ", "#   #", "#   #", "#### ", "#    ");
    v.push(('p', g));
    proof {
        reveal_strlit("     "); reveal_strlit("    #"); reveal_strlit(" ####"); reveal_strlit("#   #");
        lemma_cells_7x5(seq!["     "@, "     "@, " ####"@, "#   #"@, "#   #"@, " ####"@, "    #"@]);
    }
    let g = glyph7("     ", "     ", " ####", "#   #", "#   #", " ####", "    #");
    v.push(('q', g));
    proof {
        reveal_strlit("     "); reveal_strlit("#    "); reveal_strlit("# ## "); reveal_strlit("##  #");
        lemma_cells_7x5(seq!["     "@, "     "@, "# ## "@, "##  #"@, "#    "@, "#    "@, "#    "@]);
    }
    let g = glyph7("     ", "     ", "# ## ", "##  #", "#    ", "#    ", "#    ");
    v.push(('r', g));
    proof {
        reveal_strlit("     "); reveal_strlit("    #"); reveal_strlit(" ### "); reveal_strlit(" ####"); reveal_strlit("#    "); reveal_strlit("#### ");
        lemma_cells_7x5(seq!["     "@, "     "@, " ####"@, "#    "@, " ### "@, "    #"@, "#### "@]);
    }
    let g = glyph7("     ", "     ", " ####", "#    ", " ### ", "    #", "#### ");
    v.push(('s', g));
    proof {
        reveal_strlit("  #  "); reveal_strlit("  ## "); reveal_strlit(" ### ");
        lemma_cells_7x5(seq!["  #  "@, "  #  "@, " ### "@, "  #  "@, "  #  "@, "  #  "@, "  ## "@]);
    }
    let g = glyph7("  #  ", "  #  ", " ### ", "  #  ", "  #  ", "  #  ", "  ## ");
    v.push(('t', g));
    proof {
        reveal_strlit("     "); reveal_strlit(" ####"); reveal_strlit("#   #");
        lemma_cells_7x5(seq!["     "@, "     "@, "#   #"@, "#   #"@, "#   #"@, "#   #"@, " ####"@]);
    }
    let g = glyph7("     ", "     ", "#   #", "#   #", "#   #", "#   #", " ####");
    v.push(('u', g));
    proof {
        reveal_strlit("     "); reveal_strlit("  #  "); reveal_strlit(" # # "); reveal_strlit("#   #");
        lemma_cells_7x5(seq!["     "@, "     "@, "#   #"@, "#   #"@, "#   #"@, " # # "@, "  #  "@]);
    }
    let g = glyph7("     ", "     ", "#   #", "#   #", "#   #", " # # ", "  #  ");
    v.push(('v', g));
    proof {
        reveal_strlit("     "); reveal_strlit("#   #"); reveal_strlit("# # #"); reveal_strlit("## ##");
        lemma_cells_7x5(seq!["     "@, "     "@, "#   #"@, "# # #"@, "# # #"@, "## ##"@, "#   #"@]);
    }
    let g = glyph7("     ", "     ", "#   #", "# # #", "# # #", "## ##", "#   #");
    v.push(('w', g));
    proof {
        reveal_strlit("     "); reveal_strlit("  #  "); reveal_strlit(" # # "); reveal_strlit("#   #");
        lemma_cells_7x5(seq!["     "@, "     "@, "#   #"@, " # # "@, "  #  "@, " # # "@, "#   #"@]);
    }
    let g = glyph7("     ", "     ", "#   #", " # # ", "  #  ", " # # ", "#   #");
    v.push(('x', g));
    proof {
        reveal_strlit("     "); reveal_strlit("    #"); reveal_strlit(" ####"); reveal_strlit("#   #");
        lemma_cells_7x5(seq!["     "@, "     "@, "#   #"@, "#   #"@, "#   #"@, " ####"@, "    #"@]);
    }
    let g = glyph7("     ", "     ", "#   #", "#   #", "#   #", " ####", "    #");
    v.push(('y', g));
    proof {
        reveal_strlit("     "); reveal_strlit("   # "); reveal_strlit("  #  "); reveal_strlit(" #   "); reveal_strlit("#####");
        lemma_cells_7x5(seq!["     "@, "     "@, "#####"@, "   # "@, "  #  "@, " #   "@, "#####"@]);
    }
    let g = glyph7("     ", "     ", "#####", "   # ", "  #  ", " #   ", "#####");
    v.push(('z', g));
}

fn push_font_part3(v: &mut Vec<(char, Glyph)>)
    requires
        old(v)@.len() == 52,
        font_prefix_ok(old(v)@),
    ensures
        final(v)@.len() == 67,
        font_prefix_ok(final(v)@),
{
    proof {
        reveal_strlit(" ### "); reveal_strlit("#   #"); reveal_strlit("#  ##"); reveal_strlit("# # #"); reveal_strlit("##  #");
        lemma_cells_7x5(seq![" ### "@, "#   #"@, "#  ##"@, "# # #"@, "##  #"@, "#   #"@, " ### "@]);
    }
    let g = glyph7(" ### ", "#   #", "#  ##", "# # #", "##  #", "#   #", " ### ");
    v.push(('0', g));
    proof {
        reveal_strlit("  #  "); reveal_strlit(" ##  "); reveal_strlit(" ### ");
        lemma_cells_7x5(seq!["  #  "@, " ##  "@, "  #  "@, "  #  "@, "  #  "@, "  #  "@, " ### "@]);
    }
    let g = glyph7("  #  ", " ##  ", "  #  ", "  #  ", "  #  ", "  #  ", " ### ");
    v.push(('1', g));
    proof {
        reveal_strlit("    #"); reveal_strlit("   # "); reveal_strlit("  #  "); reveal_strlit(" #   "); reveal_strlit(" ### "); reveal_strlit("#   #"); reveal_strlit("#####");
        lemma_cells_7x5(seq![" ### "@, "#   #"@, "    #"@, "   # "@, "  #  "@, " #   "@, "#####"@]);
    }
    let g = glyph7(" ### ", "#   #", "    #", "   # ", "  #  ", " #   ", "#####");
    v.push(('2', g));
    proof {
        reveal_strlit("    #"); reveal_strlit(" ### "); reveal_strlit("#   #");
        lemma_cells_7x5(seq![" ### "@, "#   #"@, "    #"@, " ### "@, "    #"@, "#   #"@, " ### "@]);
    }
    let g = glyph7(" ### ", "#   #", "    #", " ### ", "    #", "#   #", " ### ");
    v.push(('3', g));
    proof {
        reveal_strlit("   # "); reveal_strlit("  ## "); reveal_strlit(" # # "); reveal_strlit("#  # "); reveal_strlit("#####");
        lemma_cells_7x5(seq!["   # "@, "  ## "@, " # # "@, "#  # "@, "#####"@, "   # "@, "   # "@]);
    }
    let g = glyph7("   # ", "  ## ", " # # ", "#  # ", "#####", "   # ", "   # ");
    v.push(('4', g));
    proof {
        reveal_strlit("    #"); reveal_strlit(" ### "); reveal_strlit("#    "); reveal_strlit("#   #"); reveal_strlit("#### "); reveal_strlit("#####");
        lemma_cells_7x5(seq!["#####"@, "#    "@, "#    "@, "#### "@, "    #"@, "#   #"@, " ### "@]);
    }
    let g = glyph7("#####", "#    ", "#    ", "#### ", "    #", "#   #", " ### ");
    v.push(('5', g));
    proof {
        reveal_strlit(" ### "); reveal_strlit("#    "); reveal_strlit("#   #"); reveal_strlit("#### ");
        lemma_cells_7x5(seq![" ### "@, "#   #"@, "#    "@, "#### "@, "#   #"@, "#   #"@, " ### "@]);
    }
    let g = glyph7(" ### ", "#   #", "#    ", "#### ", "#   #", "#   #", " ### ");
    v.push(('6', g));
    proof {
        reveal_strlit("    #"); reveal_strlit("   # "); reveal_strlit("  #  "); reveal_strlit("#####");
        lemma_cells_7x5(seq!["#####"@, "    #"@, "   # "@, "   # "@, "  #  "@, "  #  "@, "  #  "@]);
    }
    let g = glyph7("#####", "    #", "   # ", "   # ", "  #  ", "  #  ", "  #  ");
    v.push(('7', g));
    proof {
        reveal_strlit(" ### "); reveal_strlit("#   #");
        lemma_cells_7x5(seq![" ### "@, "#   #"@, "#   #"@, " ### "@, "#   #"@, "#   #"@, " ### "@]);
    }
    let g = glyph7(" ### ", "#   #", "#   #", " ### ", "#   #", "#   #", " ### ");
    v.push(('8', g));
    proof {
        reveal_strlit("    #"); reveal_strlit(" ### "); reveal_strlit(" ####"); reveal_strlit("#   #");
        lemma_cells_7x5(seq![" ### "@, "#   #"@, "#   #"@, " ####"@, "    #"@, "#   #"@, " ### "@]);
    }
    let g = glyph7(" ### ", "#   #", "#   #", " ####", "    #", "#   #", " ### ");
    v.push(('9', g));
    proof {
        reveal_strlit("     "); reveal_strlit("  #  ");
        lemma_cells_7x5(seq!["     "@, "  #  "@, "     "@, "     "@, "     "@, "  #  "@, "     "@]);
    }
    let g = glyph7("     ", "  #  ", "     ", "     ", "     ", "  #  ", "     ");
    v.push((':', g));
    proof {
        reveal_strlit("     "); reveal_strlit("  ## ");
        lemma_cells_7x5(seq!["     "@, "     "@, "     "@, "     "@, "     "@, "  ## "@, "  ## "@]);
    }
    let g = glyph7("     ", "     ", "     ", "     ", "     ", "  ## ", "  ## ");
    v.push(('.', g));
    proof {
        reveal_strlit("     "); reveal_strlit(" ### ");
        lemma_cells_7x5(seq!["     "@, "     "@, "     "@, " ### "@, "     "@, "     "@, "     "@]);
    }
    let g = glyph7("     ", "     ", "     ", " ### ", "     ", "     ", "     ");
    v.push(('-', g));
    proof {
        reveal_strlit("     ");
        lemma_cells_7x5(seq!["     "@, "     "@, "     "@, "     "@, "     "@, "     "@, "     "@]);
    }
    let g = glyph7("     ", "     ", "     ", "     ", "     ", "     ", "     ");
    v.push((' ', g));
    proof {
        reveal_strlit("     "); reveal_strlit(" ### ");
        lemma_cells_7x5(seq!["     "@, "     "@, " ### "@, " ### "@, " ### "@, "     "@, "     "@]);
    }
    let g = glyph7("     ", "     ", " ### ", " ### ", " ### ", "     ", "     ");
    v.push(('•', g));
}

/// The glyphs of the built-in font, one for each character of
/// [`font_chars`], in that order; see [`font_entry_ok`].
pub fn font_glyphs() -> (res: Vec<(char, Glyph)>)
    ensures
        res@.len() == font_chars().len(),
        font_prefix_ok(res@),
{
    let mut v: Vec<(char, Glyph)> = Vec::new();
    push_font_part0(&mut v);
    push_font_part1(&mut v);
    push_font_part2(&mut v);
    push_font_part3(&mut v);
    v
}

} // verus!
