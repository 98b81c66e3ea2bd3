use pdf::font::ToUnicodeMap;
use pdfvectorizer::caption::{char_is_white_space, has_caption_prefix, looks_like_caption};
use pdfvectorizer::fixed::Fixed;
use pdfvectorizer::error::ExtractError;
use pdfvectorizer::font::{
    collect_fonts, decode_cid, decode_simple, descriptor_metrics, fallback_decode, find_font,
    insert_font, resolve_font_metrics, FontData, FontDescriptor, FontOutcome, NamedFont,
    ResolvedFont, WidthTable,
};
use pdfvectorizer::geometry::{Matrix, Point};
use pdfvectorizer::ops::{Op, TextItem};
use pdfvectorizer::strings::{chars_of, push_decimal};
use pdfvectorizer::text::{
    build_text_block, collect_text_blocks, compute_text_displacement, handle_text_adjusted,
    handle_text_draw, TextState,
};

fn fx(units: i64, millionths: i64) -> Fixed {
    Fixed::from_raw(units * 1_000_000 + millionths)
}

fn whole(units: i64) -> Fixed {
    fx(units, 0)
}

fn font(widths: Option<WidthTable>, to_unicode: Option<ToUnicodeMap>, is_cid: bool) -> ResolvedFont {
    ResolvedFont { widths, to_unicode, is_cid, metrics: None }
}

fn table(first_char: usize, widths: &[i64], default: i64) -> WidthTable {
    WidthTable { values: widths.iter().map(|w| whole(*w)).collect(), default: whole(default), first_char }
}

fn named(name: &str, font: ResolvedFont) -> NamedFont {
    NamedFont { name: name.to_string(), font }
}

#[test]
fn simple_decoding_reads_one_code_per_byte() {
    let decoded = decode_simple(b"Hi!", None);
    assert_eq!(decoded.codes, vec![72, 105, 33]);
    assert_eq!(decoded.text, "Hi!");
    let high = decode_simple(&[0xE9, 0x80], None);
    assert_eq!(high.codes, vec![0xE9, 0x80]);
    assert_eq!(high.text, "\u{e9}\u{80}");
    let empty = decode_simple(&[], None);
    assert!(empty.codes.is_empty());
    assert!(empty.text.is_empty());
}

#[test]
fn simple_decoding_uses_the_unicode_table() {
    let mut map = ToUnicodeMap::new();
    map.insert(65, "\u{c4}".into());
    map.insert(66, "ffi".into());
    let decoded = decode_simple(b"ABC", Some(&map));
    assert_eq!(decoded.codes, vec![65, 66, 67]);
    assert_eq!(decoded.text, "\u{c4}ffiC");
}

#[test]
fn cid_decoding_reads_two_bytes_per_code() {
    let decoded = decode_cid(&[0x00, 0x41, 0x30, 0x42], None);
    assert_eq!(decoded.codes, vec![0x0041, 0x3042]);
    assert_eq!(decoded.text, "A\u{3042}");
}

#[test]
fn cid_decoding_drops_an_odd_byte() {
    for n in 0..9usize {
        let bytes: Vec<u8> = (0..n as u8).map(|b| b + 0x41).collect();
        let decoded = decode_cid(&bytes, None);
        assert_eq!(decoded.codes.len(), n / 2);
    }
    let decoded = decode_cid(&[0x00, 0x41, 0x42], None);
    assert_eq!(decoded.codes, vec![0x0041]);
    assert_eq!(decoded.text, "A");
}

#[test]
fn cid_decoding_replaces_surrogates_and_uses_the_table() {
    let mut map = ToUnicodeMap::new();
    map.insert(0x0102, "xy".into());
    let decoded = decode_cid(&[0xD8, 0x00, 0x01, 0x02, 0xDF, 0xFF, 0xE0, 0x00], Some(&map));
    assert_eq!(decoded.codes, vec![0xD800, 0x0102, 0xDFFF, 0xE000]);
    assert_eq!(decoded.text, "\u{fffd}xy\u{fffd}\u{e000}");
}

#[test]
fn fallback_decoding_reads_text_as_well_as_may_be() {
    let plain = fallback_decode(b"Hi");
    assert_eq!(plain.text, "Hi");
    assert_eq!(plain.codes, vec![72, 105]);
    let utf16 = fallback_decode(&[0xFE, 0xFF, 0x00, 0x41, 0x30, 0x42]);
    assert_eq!(utf16.text, "A\u{3042}");
    assert_eq!(utf16.codes, vec![0xFE, 0xFF, 0x00, 0x41, 0x30, 0x42]);
    let broken = fallback_decode(&[0x41, 0xFF]);
    assert_eq!(broken.text, "A\u{fffd}");
}

#[test]
fn font_decode_follows_the_kind_of_font() {
    let simple = font(None, None, false);
    assert_eq!(simple.decode(&[0x00, 0x41]).codes, vec![0, 0x41]);
    let cid = font(None, None, true);
    assert_eq!(cid.decode(&[0x00, 0x41]).codes, vec![0x41]);
}

#[test]
fn glyph_widths_fall_back() {
    let with = font(Some(table(65, &[500, 600], 250)), None, false);
    assert_eq!(with.glyph_width(64), whole(250));
    assert_eq!(with.glyph_width(65), whole(500));
    assert_eq!(with.glyph_width(66), whole(600));
    assert_eq!(with.glyph_width(67), whole(250));
    let without = font(None, None, false);
    assert_eq!(without.glyph_width(65), whole(1000));
    assert_eq!(with.metrics(), None);
}

#[test]
fn font_metrics_come_from_the_descriptor() {
    let full = FontDescriptor {
        ascent: Some(whole(750)),
        descent: Some(whole(-250)),
        bbox_top: whole(900),
        bbox_bottom: whole(-300),
    };
    let bare = FontDescriptor { ascent: None, descent: None, bbox_top: whole(900), bbox_bottom: whole(-300) };
    assert_eq!(descriptor_metrics(&full), (whole(750), whole(-250)));
    assert_eq!(descriptor_metrics(&bare), (whole(900), whole(-300)));
    assert_eq!(resolve_font_metrics(&FontData::Simple { descriptor: None }), None);
    assert_eq!(
        resolve_font_metrics(&FontData::Simple { descriptor: Some(full) }),
        Some((whole(750), whole(-250)))
    );
    assert_eq!(resolve_font_metrics(&FontData::Cid { descriptor: bare }), Some((whole(900), whole(-300))));
    assert_eq!(resolve_font_metrics(&FontData::Other), None);
    assert_eq!(resolve_font_metrics(&FontData::Composite { descendants: vec![] }), None);
    let composite = FontData::Composite {
        descendants: vec![FontData::Cid { descriptor: full }, FontData::Cid { descriptor: bare }],
    };
    assert_eq!(resolve_font_metrics(&composite), Some((whole(750), whole(-250))));
    let resolved = ResolvedFont::from_font(None, None, true, &composite);
    assert!(resolved.is_cid);
    assert_eq!(resolved.metrics, Some((whole(750), whole(-250))));
}

#[test]
fn fonts_are_found_by_name() {
    let mut fonts: Vec<NamedFont> = Vec::new();
    insert_font(&mut fonts, "F1".to_string(), font(None, None, false));
    insert_font(&mut fonts, "F2".to_string(), font(None, None, true));
    assert_eq!(fonts.len(), 2);
    assert!(!find_font(&fonts, &"F1".to_string()).unwrap().is_cid);
    assert!(find_font(&fonts, &"F2".to_string()).unwrap().is_cid);
    assert!(find_font(&fonts, &"F3".to_string()).is_none());
    insert_font(&mut fonts, "F1".to_string(), font(None, None, true));
    assert_eq!(fonts.len(), 2);
    assert!(find_font(&fonts, &"F1".to_string()).unwrap().is_cid);
}

#[test]
fn displacement_follows_the_formula() {
    let resolved = font(Some(table(32, &[250, 333, 408], 0)), None, false);
    let mut state = TextState::default();
    state.set_font(&"F1".to_string(), whole(10));
    state.set_char_spacing(fx(0, 500_000));
    state.set_word_spacing(whole(2));
    state.set_horizontal_scale(whole(50));
    // codes: space (250), 33 (333), 34 (408), space (250)
    // (2.5 + 0.5 + 2) + (3.33 + 0.5) + (4.08 + 0.5) + (2.5 + 0.5 + 2) = 18.41, halved
    let moved = compute_text_displacement(Some(&resolved), &vec![32, 33, 34, 32], &state);
    assert_eq!(moved, fx(9, 205_000));
    let unknown = compute_text_displacement(None, &vec![65, 32], &state);
    // (10 + 0.5) + (10 + 0.5 + 2) = 23, halved
    assert_eq!(unknown, fx(11, 500_000));
    assert_eq!(compute_text_displacement(Some(&resolved), &vec![], &state), whole(0));
}

#[test]
fn default_text_state() {
    let state = TextState::default();
    assert_eq!(state.current_font, None);
    assert_eq!(state.font_size, whole(12));
    assert_eq!(state.char_spacing, whole(0));
    assert_eq!(state.word_spacing, whole(0));
    assert_eq!(state.horizontal_scale, whole(100));
    assert_eq!(state.leading, whole(0));
    assert_eq!(state.text_rise, whole(0));
    assert_eq!(state.text_matrix, Matrix::identity());
    assert_eq!(state.text_line_matrix, Matrix::identity());
}

#[test]
fn text_matrix_rules() {
    let mut state = TextState::default();
    let m = Matrix { a: whole(2), b: whole(0), c: whole(0), d: whole(2), e: whole(10), f: whole(20) };
    state.set_text_matrix(m);
    assert_eq!(state.text_matrix, m);
    assert_eq!(state.text_line_matrix, m);
    state.translate_text(whole(3));
    assert_eq!(state.text_matrix.e, whole(16));
    assert_eq!(state.text_line_matrix, m);
    state.set_leading(whole(5));
    state.newline();
    assert_eq!(state.text_line_matrix.e, whole(10));
    assert_eq!(state.text_line_matrix.f, whole(10));
    assert_eq!(state.text_matrix, state.text_line_matrix);
    state.translate_line(whole(1), whole(1));
    assert_eq!((state.text_matrix.e, state.text_matrix.f), (whole(12), whole(12)));
    state.set_text_rise(whole(4));
    assert_eq!(state.text_rise, whole(4));
    state.begin_text();
    assert_eq!(state.text_matrix, Matrix::identity());
    assert_eq!(state.text_line_matrix, Matrix::identity());
    assert_eq!(state.leading, whole(5));
    assert_eq!(state.text_rise, whole(4));
}

#[test]
fn begin_text_resets_the_matrices() {
    let ops = vec![
        Op::BeginText,
        Op::SetTextMatrix {
            matrix: Matrix { a: whole(3), b: whole(1), c: whole(2), d: whole(5), e: whole(70), f: whole(90) },
        },
        Op::BeginText,
        Op::TextDraw { text: b"X".to_vec() },
    ];
    let runs = collect_text_blocks(&ops, &vec![]);
    assert_eq!(runs.len(), 1);
    assert_eq!((runs[0].baseline_x, runs[0].baseline_y), (whole(0), whole(0)));
}

#[test]
fn runs_keep_the_order_of_the_operators() {
    let ops = vec![
        Op::BeginText,
        Op::TextDraw { text: b"first".to_vec() },
        Op::MoveTextPosition { translation: Point { x: whole(0), y: whole(-14) } },
        Op::TextDrawAdjusted {
            array: vec![TextItem::Text(b"second".to_vec()), TextItem::Text(b"third".to_vec())],
        },
        Op::TextNewline,
        Op::TextDraw { text: b"".to_vec() },
        Op::TextDraw { text: b"fourth".to_vec() },
        Op::EndText,
    ];
    let runs = collect_text_blocks(&ops, &vec![]);
    let texts: Vec<&str> = runs.iter().map(|r| r.text.as_str()).collect();
    assert_eq!(texts, vec!["first", "second", "third", "fourth"]);
    for k in 0..=ops.len() {
        let mut front: Vec<Op> = Vec::new();
        for op in &ops[..k] {
            front.push(match op {
                Op::BeginText => Op::BeginText,
                Op::EndText => Op::EndText,
                Op::TextNewline => Op::TextNewline,
                Op::TextDraw { text } => Op::TextDraw { text: text.clone() },
                Op::MoveTextPosition { translation } => Op::MoveTextPosition { translation: *translation },
                Op::TextDrawAdjusted { .. } => Op::TextDrawAdjusted {
                    array: vec![TextItem::Text(b"second".to_vec()), TextItem::Text(b"third".to_vec())],
                },
                _ => Op::Other,
            });
        }
        let part = collect_text_blocks(&front, &vec![]);
        assert!(part.len() <= runs.len());
        for (a, b) in part.iter().zip(runs.iter()) {
            assert_eq!(a.text, b.text);
            assert_eq!((a.x0, a.y0, a.x1, a.y1), (b.x0, b.y0, b.x1, b.y1));
        }
    }
}

#[test]
fn run_boxes_are_in_order_under_any_matrix() {
    let matrices = vec![
        Matrix { a: whole(-2), b: whole(0), c: whole(0), d: whole(-3), e: whole(5), f: whole(5) },
        Matrix { a: whole(0), b: whole(-1), c: whole(1), d: whole(0), e: whole(-40), f: whole(7) },
        Matrix { a: fx(0, 500_000), b: fx(0, 250_000), c: whole(-1), d: whole(2), e: whole(0), f: whole(0) },
    ];
    for m in matrices {
        let ops = vec![
            Op::BeginText,
            Op::SetTextMatrix { matrix: m },
            Op::TextRise { rise: whole(-3) },
            Op::TextDraw { text: b"abc".to_vec() },
        ];
        let runs = collect_text_blocks(&ops, &vec![]);
        assert_eq!(runs.len(), 1);
        assert!(runs[0].x0.raw <= runs[0].x1.raw);
        assert!(runs[0].y0.raw <= runs[0].y1.raw);
    }
}

#[test]
fn text_block_under_a_scaling_matrix() {
    let mut state = TextState::default();
    state.set_text_matrix(Matrix { a: whole(2), b: whole(0), c: whole(0), d: whole(3), e: whole(10), f: whole(20) });
    state.set_text_rise(whole(1));
    let run = build_text_block(&state, "ab".to_string(), whole(5), (whole(800), whole(-200)));
    // ascent 9.6, descent -2.4, rise 1: y from 3 * (1 - 2.4) + 20 to 3 * (1 + 9.6) + 20
    assert_eq!(run.text, "ab");
    assert_eq!((run.baseline_x, run.baseline_y), (whole(10), whole(23)));
    assert_eq!((run.x0, run.x1), (whole(10), whole(20)));
    assert_eq!((run.y0, run.y1), (fx(15, 800_000), fx(51, 800_000)));
}

#[test]
fn drawing_with_an_unknown_font_uses_the_defaults() {
    let mut state = TextState::default();
    state.set_font(&"Nowhere".to_string(), whole(10));
    let mut runs = Vec::new();
    handle_text_draw(&mut state, &vec![], &b"ab".to_vec(), &mut runs);
    assert_eq!(runs.len(), 1);
    assert_eq!(runs[0].x1, whole(20));
    assert_eq!((runs[0].y0, runs[0].y1), (whole(-2), whole(8)));
    assert_eq!(state.text_matrix.e, whole(20));
    handle_text_draw(&mut state, &vec![], &Vec::new(), &mut runs);
    assert_eq!(runs.len(), 1);
    assert_eq!(state.text_matrix.e, whole(20));
}

#[test]
fn spacing_moves_against_its_sign() {
    let mut state = TextState::default();
    state.set_horizontal_scale(whole(50));
    let fonts = vec![named("F1", font(Some(table(0, &[500; 128], 0)), None, false))];
    state.set_font(&"F1".to_string(), whole(10));
    let mut runs = Vec::new();
    handle_text_adjusted(
        &mut state,
        &fonts,
        &vec![TextItem::Spacing(whole(-200)), TextItem::Text(b"A".to_vec()), TextItem::Spacing(whole(0))],
        &mut runs,
    );
    // spacing: 200 / 1000 * 10 * 0.5 = 1; the glyph: 5 * 0.5 = 2.5
    assert_eq!(runs.len(), 1);
    assert_eq!(runs[0].baseline_x, whole(1));
    assert_eq!(state.text_matrix.e, fx(3, 500_000));
}

#[test]
fn font_metrics_shape_the_box() {
    let fonts = vec![named(
        "F1",
        ResolvedFont {
            widths: Some(table(0, &[1000; 128], 0)),
            to_unicode: None,
            is_cid: false,
            metrics: Some((whole(700), whole(-100))),
        },
    )];
    let ops = vec![
        Op::TextFont { name: "F1".to_string(), size: whole(20) },
        Op::CharSpacing { char_space: whole(1) },
        Op::WordSpacing { word_space: whole(3) },
        Op::TextScaling { horiz_scale: whole(200) },
        Op::Leading { leading: whole(24) },
        Op::BeginText,
        Op::TextNewline,
        Op::TextDraw { text: b"a b".to_vec() },
    ];
    let runs = collect_text_blocks(&ops, &fonts);
    // advances 21 + (21 + 3) + 21 = 66, doubled
    assert_eq!(runs.len(), 1);
    assert_eq!((runs[0].baseline_x, runs[0].baseline_y), (whole(0), whole(-24)));
    assert_eq!((runs[0].x0, runs[0].x1), (whole(0), whole(132)));
    assert_eq!((runs[0].y0, runs[0].y1), (whole(-26), whole(-10)));
}

#[test]
fn captions_are_told_by_their_first_word() {
    for text in [
        "Fig. 1",
        "fig 2 shows",
        "FIG(3)",
        "Figure 4",
        "FIGURES",
        "table 5",
        "Table",
        "  (Fig. 6)",
        "[[ ( Figure 7",
        "\t\u{3000}Table 8\n",
        "\u{56f3}1",
        "\u{8868} 2",
        " (\u{56f3}",
        "fig ",
        "  Fig   ",
        "(FIG \n",
        "[FIG. 2] Setup",
        "  (Table 1",
        "Figures",
    ] {
        assert!(looks_like_caption(text), "{:?}", text);
    }
    for text in [
        "",
        "   ",
        "([ ",
        "Fig",
        "fig",
        "fig\n",
        "fig\t ",
        "figs",
        "Fig1 setup",
        "Config table",
        "Fig1",
        "The figure",
        "a table",
        "tab",
        ")Fig. 1",
        "\u{56f2}1",
        "x\u{56f3}",
    ] {
        assert!(!looks_like_caption(text), "{:?}", text);
    }
}

#[test]
fn caption_prefixes_in_lower_case() {
    assert!(has_caption_prefix(&chars_of("fig.")));
    assert!(has_caption_prefix(&chars_of("table of")));
    assert!(has_caption_prefix(&chars_of("figure")));
    assert!(!has_caption_prefix(&chars_of("figur")));
    assert!(!has_caption_prefix(&chars_of("Fig.")));
    assert!(!has_caption_prefix(&chars_of("")));
}

#[test]
fn white_space_is_what_the_standard_library_takes_for_it() {
    for code in 0..0x11_0000u32 {
        if let Some(c) = char::from_u32(code) {
            assert_eq!(char_is_white_space(c), c.is_whitespace(), "U+{:04X}", code);
        }
    }
}

#[test]
fn decimal_notation() {
    for (n, text) in [(0usize, "0"), (7, "7"), (10, "10"), (65535, "65535"), (1_000_000, "1000000")] {
        let mut s = String::from("#");
        push_decimal(&mut s, n);
        assert_eq!(s, format!("#{}", text));
    }
    let mut s = String::new();
    push_decimal(&mut s, usize::MAX);
    assert_eq!(s, format!("{}", usize::MAX));
    assert_eq!(chars_of("a\u{56f3}b"), vec!['a', '\u{56f3}', 'b']);
}

#[test]
fn one_unresolved_font_fails_the_page() {
    let outcome = |name: &str, result: Result<bool, &str>| FontOutcome {
        name: name.to_string(),
        font: result.map(|is_cid| font(None, None, is_cid)).map_err(|e| e.to_string()),
    };
    let fonts = collect_fonts(vec![outcome("F1", Ok(false)), outcome("F2", Ok(true)), outcome("F1", Ok(true))]).unwrap();
    assert_eq!(fonts.len(), 2);
    assert_eq!(fonts[0].name, "F1");
    assert!(fonts[0].font.is_cid);
    assert_eq!(fonts[1].name, "F2");
    assert!(collect_fonts(vec![]).unwrap().is_empty());
    match collect_fonts(vec![outcome("F1", Ok(false)), outcome("F2", Err("no widths")), outcome("F3", Err("later"))]) {
        Err(ExtractError::PdfStructure(words)) => assert_eq!(words, "no widths"),
        other => panic!("unexpected outcome: {:?}", other),
    }
}

#[test]
fn moves_follow_the_text_matrix() {
    let ops = vec![
        Op::BeginText,
        Op::SetTextMatrix {
            matrix: Matrix { a: whole(2), b: whole(0), c: whole(0), d: whole(2), e: whole(100), f: whole(200) },
        },
        Op::MoveTextPosition { translation: Point { x: whole(10), y: whole(-5) } },
        Op::TextDraw { text: b"a".to_vec() },
        Op::TextDraw { text: b"b".to_vec() },
    ];
    let runs = collect_text_blocks(&ops, &vec![]);
    assert_eq!((runs[0].baseline_x, runs[0].baseline_y), (whole(120), whole(190)));
    // one glyph of the unknown font is 12 wide, which the matrix doubles
    assert_eq!((runs[1].baseline_x, runs[1].baseline_y), (whole(144), whole(190)));
}
