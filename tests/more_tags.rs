use swf_emitter::basic_data_types::{Matrix, Rect, StraightSRgba8};
use swf_emitter::button::{ButtonCond, ButtonCondAction, ButtonRecord, DefineButton};
use swf_emitter::display::{emit_filter_list, BevelFilter, BlendMode, Filter, FilterColorStop, GradientFilter};
use swf_emitter::emit_tag;
use swf_emitter::font::{DefineFont, DefineGlyphFont, EmSquareSize, FontLayout, Glyph, KerningRecord};
use swf_emitter::gradient::{ColorSpace, GradientSpread, MorphColorStop, MorphGradient};
use swf_emitter::misc_tags::{AbcHeader, DefineBitmap, DefineSceneAndFrameLabelData, DoAbc, FrameName, ImageType};
use swf_emitter::morph_shape::{
    DefineMorphShape, MorphEdge, MorphFillStyle, MorphGradientFill, MorphShape, MorphShapeRecord, MorphShapeStyles,
    MorphSolidFill, MorphStyleChange,
};
use swf_emitter::shape::{Edge, ShapeRecord, StyleChange, Vector2D};
use swf_emitter::sound::{ButtonSound, DefineButtonSound, AudioCodingFormat, DefineSound, SoundEnvelope, SoundInfo, SoundRate, SoundSize, SoundType, StartSound};
use swf_emitter::tags::Tag;
use swf_emitter::text::{
    DefineDynamicText, DefineFontInfo, DefineText, GlyphEntry, LanguageCode, TextAlignment, TextRecord,
};

fn code_of(bytes: &[u8]) -> u16 {
    u16::from_le_bytes([bytes[0], bytes[1]]) >> 6
}

fn identity() -> Matrix {
    Matrix { scale_x: 65536, scale_y: 65536, rotate_skew0: 0, rotate_skew1: 0, translate_x: 0, translate_y: 0 }
}

fn zero_rect() -> Rect {
    Rect { x_min: 0, x_max: 0, y_min: 0, y_max: 0 }
}

fn record() -> ButtonRecord {
    ButtonRecord {
        state_up: true,
        state_over: false,
        state_down: false,
        state_hit_test: false,
        character_id: 1,
        depth: 1,
        matrix: identity(),
        color_transform: None,
        filters: Vec::new(),
        blend_mode: BlendMode::Normal,
    }
}

fn button(track_as_menu: bool) -> DefineButton {
    DefineButton {
        id: 2,
        track_as_menu,
        records: vec![record()],
        actions: vec![ButtonCondAction { conditions: None, actions: vec![0] }],
    }
}

#[test]
fn simple_button_uses_code_7() {
    let bytes = emit_tag(&Tag::DefineButton(button(false)), 10);
    // id, one record (flags, character, depth, matrix), end of records, the action bytes.
    assert_eq!(bytes, vec![0xca, 0x01, 0x02, 0x00, 0x01, 0x01, 0x00, 0x01, 0x00, 0x00, 0x00, 0x00]);
}

#[test]
fn menu_button_uses_code_34() {
    let mut b = button(true);
    b.records[0].color_transform = Some(swf_emitter::basic_data_types::ColorTransformWithAlpha {
        red_mult: 256,
        green_mult: 256,
        blue_mult: 256,
        alpha_mult: 256,
        red_add: 0,
        green_add: 0,
        blue_add: 0,
        alpha_add: 0,
    });
    b.actions[0].conditions = Some(ButtonCond {
        key_press: None,
        idle_to_over_up: false,
        over_up_to_idle: false,
        over_up_to_over_down: true,
        over_down_to_over_up: false,
        over_down_to_out_down: false,
        out_down_to_over_down: false,
        out_down_to_idle: false,
        idle_to_over_down: false,
        over_down_to_idle: false,
    });
    let bytes = emit_tag(&Tag::DefineButton(b), 10);
    assert_eq!(code_of(&bytes), 34);
    // id, menu flag, offset to the actions (2 + record bytes), 8 record bytes with the
    // transform, end of records, then the action with its size: conditions and one byte.
    assert_eq!(&bytes[2..], &[0x02, 0x00, 0x01, 0x0a, 0x00, 0x01, 0x01, 0x00, 0x01, 0x00, 0x00, 0x00, 0x00, 0x03, 0x00, 0x04, 0x00, 0x00]);
}

#[test]
fn button_with_blend_mode_uses_code_34() {
    let mut b = button(false);
    b.records[0].blend_mode = BlendMode::Multiply;
    b.records[0].color_transform = Some(swf_emitter::basic_data_types::ColorTransformWithAlpha {
        red_mult: 256,
        green_mult: 256,
        blue_mult: 256,
        alpha_mult: 256,
        red_add: 0,
        green_add: 0,
        blue_add: 0,
        alpha_add: 0,
    });
    b.actions[0].conditions = Some(ButtonCond {
        key_press: Some(13),
        idle_to_over_up: false,
        over_up_to_idle: false,
        over_up_to_over_down: false,
        over_down_to_over_up: false,
        over_down_to_out_down: false,
        out_down_to_over_down: false,
        out_down_to_idle: false,
        idle_to_over_down: false,
        over_down_to_idle: false,
    });
    let bytes = emit_tag(&Tag::DefineButton(b), 10);
    assert_eq!(code_of(&bytes), 34);
    // The key code sits in bits 9 to 15 of the conditions.
    let n = bytes.len();
    assert_eq!(&bytes[n - 3..], &[0x00, 0x1a, 0x00]);
}

#[test]
fn define_text_widths_and_version() {
    let text = DefineText {
        id: 1,
        bounds: zero_rect(),
        matrix: identity(),
        records: vec![TextRecord {
            font_id: Some(3),
            color: Some(StraightSRgba8 { r: 1, g: 2, b: 3, a: 255 }),
            offset_x: 0,
            offset_y: 0,
            font_size: Some(240),
            entries: vec![GlyphEntry { index: 2, advance: 5 }],
        }],
    };
    let bytes = emit_tag(&Tag::DefineText(text.clone()), 10);
    assert_eq!(code_of(&bytes), 11);
    // id, bounds, matrix, index bits 2, advance bits 4, then the record:
    // flags 0x8c, font 3, RGB, size 240, one glyph packed as 10 0101, end byte.
    assert_eq!(
        &bytes[2..],
        &[0x01, 0x00, 0x00, 0x00, 0x02, 0x04, 0x8c, 0x03, 0x00, 0x01, 0x02, 0x03, 0xf0, 0x00, 0x01, 0x94, 0x00]
    );
    let mut translucent = text;
    translucent.records[0].color = Some(StraightSRgba8 { r: 1, g: 2, b: 3, a: 4 });
    assert_eq!(code_of(&emit_tag(&Tag::DefineText(translucent), 10)), 33);
}

#[test]
fn dynamic_text_fields() {
    let text = DefineDynamicText {
        id: 1,
        bounds: zero_rect(),
        word_wrap: false,
        multiline: false,
        password: false,
        readonly: true,
        auto_size: false,
        no_select: false,
        border: false,
        was_static: false,
        html: false,
        use_glyph_font: false,
        font_id: None,
        font_class: None,
        font_size: None,
        color: None,
        max_length: Some(5),
        align: TextAlignment::Right,
        margin_left: 0,
        margin_right: 0,
        indent: 0,
        leading: 0,
        variable_name: None,
        text: Some("a".to_string()),
    };
    let bytes = emit_tag(&Tag::DefineDynamicText(text), 10);
    assert_eq!(code_of(&bytes), 37);
    // flags: max length, read-only, text, layout.
    assert_eq!(
        &bytes[2..],
        &[0x01, 0x00, 0x00, 0x8a, 0x20, 0x05, 0x00, 0x01, 0, 0, 0, 0, 0, 0, 0, 0, 0x00, 0x61, 0x00]
    );
}

#[test]
fn font_info_versions() {
    let info = DefineFontInfo {
        font_id: 1,
        font_name: "F".to_string(),
        is_small: false,
        is_shift_jis: false,
        is_ansi: false,
        is_italic: false,
        is_bold: true,
        language: LanguageCode::Auto,
        code_units: vec![65, 66],
    };
    let bytes = emit_tag(&Tag::DefineFontInfo(info.clone()), 10);
    assert_eq!(code_of(&bytes), 13);
    assert_eq!(&bytes[2..], &[0x01, 0x00, 0x02, 0x46, 0x00, 0x02, 65, 66]);
    let mut wide = info.clone();
    wide.code_units = vec![300];
    let bytes = emit_tag(&Tag::DefineFontInfo(wide), 10);
    assert_eq!(&bytes[6..], &[0x00, 0x03, 0x2c, 0x01]);
    let mut latin = info;
    latin.language = LanguageCode::Latin;
    let bytes = emit_tag(&Tag::DefineFontInfo(latin), 10);
    assert_eq!(code_of(&bytes), 62);
    assert_eq!(&bytes[7..], &[0x03, 0x01, 65, 0, 66, 0]);
}

#[test]
fn sounds() {
    let sound = DefineSound {
        id: 1,
        sound_type: SoundType::Stereo,
        sound_size: SoundSize::SoundSize16,
        sound_rate: SoundRate::SoundRate44000,
        format: AudioCodingFormat::Mp3,
        sample_count: 2,
        data: vec![9],
    };
    assert_eq!(emit_tag(&Tag::DefineSound(sound), 10), vec![0x88, 0x03, 1, 0, 0x2f, 2, 0, 0, 0, 9]);
    let start = StartSound {
        sound_id: 1,
        sound_info: SoundInfo {
            sync_stop: false,
            sync_no_multiple: true,
            in_point: None,
            out_point: None,
            loop_count: Some(3),
            envelope_records: Some(vec![SoundEnvelope { pos44: 1, left_level: 2, right_level: 3 }]),
        },
    };
    assert_eq!(
        emit_tag(&Tag::StartSound(start), 10),
        vec![0xce, 0x03, 1, 0, 0x1c, 3, 0, 1, 1, 0, 0, 0, 2, 0, 3, 0]
    );
}

#[test]
fn morph_shape_streams() {
    let shape = DefineMorphShape {
        id: 1,
        bounds: zero_rect(),
        morph_bounds: zero_rect(),
        edge_bounds: None,
        morph_edge_bounds: None,
        has_non_scaling_strokes: false,
        has_scaling_strokes: false,
        shape: MorphShape {
            initial_styles: MorphShapeStyles {
                fill: vec![MorphFillStyle::Solid(MorphSolidFill {
                    color: StraightSRgba8 { r: 1, g: 2, b: 3, a: 4 },
                    morph_color: StraightSRgba8 { r: 5, g: 6, b: 7, a: 8 },
                })],
                line: Vec::new(),
            },
            records: vec![
                MorphShapeRecord::StyleChange(MorphStyleChange {
                    move_to: Some(Vector2D { x: 0, y: 0 }),
                    morph_move_to: Some(Vector2D { x: 0, y: 0 }),
                    left_fill: None,
                    right_fill: Some(1),
                    line_style: None,
                }),
                MorphShapeRecord::Edge(MorphEdge {
                    delta: Vector2D { x: 1, y: 0 },
                    control_delta: None,
                    morph_delta: Vector2D { x: 0, y: 1 },
                    morph_control_delta: None,
                }),
            ],
        },
    };
    let bytes = emit_tag(&Tag::DefineMorphShape(shape), 10);
    assert_eq!(code_of(&bytes), 46);
    let body = &bytes[2..];
    // id, bounds, morph bounds, then the offset of the end records.
    assert_eq!(&body[0..4], &[1, 0, 0, 0]);
    let offset = u32::from_le_bytes([body[4], body[5], body[6], body[7]]) as usize;
    let start = &body[8..];
    // Styles: one fill (solid, both colors), no line.
    assert_eq!(&start[0..11], &[0x01, 0x00, 1, 2, 3, 4, 5, 6, 7, 8, 0x00]);
    // fill bits 1, line bits 0; style change 0 00101 00000 1; edge 1 1 0000 0 0 01; end 000000.
    assert_eq!(&start[11..offset], &[0x10, 0x14, 0x1c, 0x04, 0x00]);
    // The end stream repeats the widths, then a pure move and the end edge.
    assert_eq!(&start[offset..], &[0x10, 0x04, 0x18, 0x28, 0x00]);
}

#[test]
fn morph_shape_with_edge_bounds_uses_code_84() {
    let shape = DefineMorphShape {
        id: 1,
        bounds: zero_rect(),
        morph_bounds: zero_rect(),
        edge_bounds: Some(zero_rect()),
        morph_edge_bounds: Some(zero_rect()),
        has_non_scaling_strokes: false,
        has_scaling_strokes: true,
        shape: MorphShape {
            initial_styles: MorphShapeStyles {
                fill: vec![MorphFillStyle::LinearGradient(MorphGradientFill {
                    matrix: identity(),
                    morph_matrix: identity(),
                    gradient: MorphGradient {
                        spread: GradientSpread::Pad,
                        color_space: ColorSpace::SRgb,
                        colors: vec![MorphColorStop {
                            ratio: 0,
                            color: StraightSRgba8 { r: 0, g: 0, b: 0, a: 255 },
                            morph_ratio: 255,
                            morph_color: StraightSRgba8 { r: 255, g: 255, b: 255, a: 255 },
                        }],
                    },
                })],
                line: Vec::new(),
            },
            records: Vec::new(),
        },
    };
    let bytes = emit_tag(&Tag::DefineMorphShape(shape), 10);
    assert_eq!(code_of(&bytes), 84);
    assert_eq!(bytes[2 + 6], 0x01);
}

#[test]
fn glyph_fonts() {
    let glyph = Glyph {
        records: vec![
            ShapeRecord::StyleChange(StyleChange {
                move_to: None,
                left_fill: Some(1),
                right_fill: None,
                line_style: None,
                new_styles: None,
            }),
            ShapeRecord::Edge(Edge { delta: Vector2D { x: 1, y: 1 }, control_delta: None }),
        ],
    };
    let font = DefineGlyphFont { id: 1, glyphs: vec![glyph.clone(), glyph.clone()] };
    let bytes = emit_tag(&Tag::DefineGlyphFont(font), 10);
    assert_eq!(code_of(&bytes), 10);
    // Widths 1 and 0, style change 0 00010 1, edge 1 1 0000 1 01 01, end; 4 bytes each.
    let glyph_bytes = [0x10, 0x0b, 0x85, 0x40];
    assert_eq!(&bytes[2..4], &[1, 0]);
    assert_eq!(&bytes[4..8], &[4, 0, 8, 0]);
    assert_eq!(&bytes[8..12], &glyph_bytes);
    assert_eq!(&bytes[12..16], &glyph_bytes);
    assert_eq!(emit_tag(&Tag::DefineGlyphFont(DefineGlyphFont { id: 7, glyphs: Vec::new() }), 10), vec![0x82, 0x02, 7, 0]);

    let font = DefineFont {
        id: 1,
        font_name: "F".to_string(),
        is_bold: false,
        is_italic: false,
        is_ansi: false,
        is_small: false,
        is_shift_jis: false,
        em_square_size: EmSquareSize::EmSquareSize20480,
        language: LanguageCode::Latin,
        glyphs: Some(vec![glyph]),
        code_units: Some(vec![65]),
        layout: Some(FontLayout {
            ascent: 1,
            descent: 2,
            leading: 3,
            advances: vec![4],
            bounds: vec![zero_rect()],
            kerning: vec![KerningRecord { left: 65, right: 66, adjustment: -1 }],
        }),
    };
    let bytes = emit_tag(&Tag::DefineFont(font), 10);
    assert_eq!(code_of(&bytes), 75);
    assert_eq!(
        &bytes[2..],
        &[
            1, 0, 0x84, 1, 2, 0x46, 0, 1, 0, 4, 0, 8, 0, 0x10, 0x0b, 0x85, 0x40, 65, 0, 1, 0, 2, 0, 3, 0, 4, 0, 0, 1,
            0, 65, 0, 66, 0, 0xff, 0xff
        ]
    );
    let no_glyphs = DefineFont {
        id: 1,
        font_name: "F".to_string(),
        is_bold: false,
        is_italic: false,
        is_ansi: false,
        is_small: false,
        is_shift_jis: false,
        em_square_size: EmSquareSize::EmSquareSize1024,
        language: LanguageCode::Auto,
        glyphs: None,
        code_units: None,
        layout: None,
    };
    let bytes = emit_tag(&Tag::DefineFont(no_glyphs), 10);
    assert_eq!(code_of(&bytes), 48);
    assert_eq!(&bytes[2..], &[1, 0, 0x04, 0, 2, 0x46, 0, 0, 0]);
}

#[test]
fn bitmaps_abc_and_scenes() {
    let bitmap = DefineBitmap { id: 1, media_type: ImageType::Png, data: vec![7] };
    assert_eq!(emit_tag(&Tag::DefineBitmap(bitmap), 10), vec![0x7f, 0x05, 3, 0, 0, 0, 1, 0, 7]);
    let lossless = DefineBitmap { id: 1, media_type: ImageType::SwfLossless2, data: Vec::new() };
    assert_eq!(code_of(&emit_tag(&Tag::DefineBitmap(lossless), 10)), 36);
    let abc = DoAbc { header: Some(AbcHeader { flags: 1, name: String::new() }), data: vec![5] };
    assert_eq!(emit_tag(&Tag::DoAbc(abc), 10), vec![0x86, 0x14, 1, 0, 0, 0, 0, 5]);
    let abc1 = DoAbc { header: None, data: vec![5] };
    assert_eq!(code_of(&emit_tag(&Tag::DoAbc(abc1), 10)), 72);
    let scenes = DefineSceneAndFrameLabelData {
        scenes: vec![FrameName { frame: 0, name: "s".to_string() }],
        labels: vec![FrameName { frame: 200, name: "l".to_string() }],
    };
    assert_eq!(
        emit_tag(&Tag::DefineSceneAndFrameLabelData(scenes), 10),
        vec![0x89, 0x15, 1, 0, 0x73, 0, 1, 0xc8, 0x01, 0x6c, 0]
    );
}

#[test]
fn button_sounds() {
    let info = SoundInfo {
        sync_stop: false,
        sync_no_multiple: false,
        in_point: None,
        out_point: None,
        loop_count: None,
        envelope_records: None,
    };
    let sounds = DefineButtonSound {
        button_id: 1,
        over_up_to_idle: None,
        idle_to_over_up: Some(ButtonSound { sound_id: 2, sound_info: info }),
        over_up_to_over_down: None,
        over_down_to_over_up: None,
    };
    assert_eq!(
        emit_tag(&Tag::DefineButtonSound(sounds), 10),
        vec![0x4b, 0x04, 1, 0, 0, 0, 2, 0, 0, 0, 0, 0, 0]
    );
}

#[test]
fn bevel_and_gradient_filters() {
    let bevel = Filter::Bevel(BevelFilter {
        shadow_color: StraightSRgba8 { r: 1, g: 2, b: 3, a: 4 },
        highlight_color: StraightSRgba8 { r: 5, g: 6, b: 7, a: 8 },
        blur_x: 1,
        blur_y: 2,
        angle: 3,
        distance: 4,
        strength: 256,
        inner: true,
        knockout: false,
        composite_source: false,
        on_top: true,
        passes: 1,
    });
    let glow = Filter::GradientGlow(GradientFilter {
        gradient: vec![FilterColorStop { ratio: 9, color: StraightSRgba8 { r: 1, g: 1, b: 1, a: 1 } }],
        blur_x: 0,
        blur_y: 0,
        angle: 0,
        distance: 0,
        strength: 0,
        inner: false,
        knockout: true,
        composite_source: false,
        on_top: false,
        passes: 2,
    });
    let mut out = Vec::new();
    emit_filter_list(&mut out, &vec![bevel, glow]);
    assert_eq!(
        out,
        vec![
            2, 3, 1, 2, 3, 4, 5, 6, 7, 8, 1, 0, 0, 0, 2, 0, 0, 0, 3, 0, 0, 0, 4, 0, 0, 0, 0, 1, 0x91, 4, 1, 1, 1,
            1, 1, 9, 0, 0, 0, 0, 0, 0, 0, 0, 0, 0, 0, 0, 0, 0, 0, 0, 0, 0, 0x42
        ]
    );
}

#[test]
fn morph_end_move_without_start_move() {
    let shape = DefineMorphShape {
        id: 1,
        bounds: zero_rect(),
        morph_bounds: zero_rect(),
        edge_bounds: None,
        morph_edge_bounds: None,
        has_non_scaling_strokes: false,
        has_scaling_strokes: false,
        shape: MorphShape {
            initial_styles: MorphShapeStyles { fill: Vec::new(), line: Vec::new() },
            records: vec![
                MorphShapeRecord::StyleChange(MorphStyleChange {
                    move_to: None,
                    morph_move_to: Some(Vector2D { x: 1, y: 1 }),
                    left_fill: None,
                    right_fill: None,
                    line_style: Some(0),
                }),
                MorphShapeRecord::StyleChange(MorphStyleChange {
                    move_to: Some(Vector2D { x: 1, y: 1 }),
                    morph_move_to: None,
                    left_fill: None,
                    right_fill: None,
                    line_style: None,
                }),
            ],
        },
    };
    let bytes = emit_tag(&Tag::DefineMorphShape(shape), 10);
    let body = &bytes[2..];
    let offset = u32::from_le_bytes([body[4], body[5], body[6], body[7]]) as usize;
    let start = &body[8..];
    // Widths 0 and 0; the first change sets only a line style (01000, no index bits), the
    // second moves to (1, 1) with width 2; then the end bits.
    assert_eq!(&start[2..offset], &[0x00, 0x20, 0x11, 0x28, 0x00]);
    // The end stream writes the end move of the first change and leaves the second out.
    assert_eq!(&start[offset..], &[0x00, 0x04, 0x4a, 0x00]);
}
