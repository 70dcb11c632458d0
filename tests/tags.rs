use swf_emitter::basic_data_types::{ColorTransformWithAlpha, Matrix, Rect, SRgb8, StraightSRgba8};
use swf_emitter::display::{BlurFilter, ClipAction, Filter};
use swf_emitter::emit_tag;
use swf_emitter::shape::{
    CapStyle, Edge, FillStyle, JoinStyle, LineStyle, Shape, ShapeRecord, ShapeStyles, StyleChange, Vector2D,
};
use swf_emitter::tags::{
    DefineShape, DefineSprite, FrameLabel, NamedId, PlaceObject, Protect, RawBody, RemoveObject, SetBackgroundColor,
    SymbolClass, Tag,
};

fn white() -> StraightSRgba8 {
    StraightSRgba8 { r: 255, g: 255, b: 255, a: 255 }
}

fn black_line(width: u16) -> LineStyle {
    LineStyle {
        width,
        start_cap: CapStyle::Round,
        end_cap: CapStyle::Round,
        join: JoinStyle::Round,
        no_h_scale: false,
        no_v_scale: false,
        no_close: false,
        pixel_hinting: false,
        fill: FillStyle::Solid(StraightSRgba8 { r: 0, g: 0, b: 0, a: 255 }),
    }
}

fn simple_shape(edge_bounds: Option<Rect>) -> DefineShape {
    DefineShape {
        id: 1,
        bounds: Rect { x_min: 0, x_max: 100, y_min: 0, y_max: 20 },
        edge_bounds,
        has_fill_winding: false,
        has_non_scaling_strokes: false,
        has_scaling_strokes: false,
        shape: Shape {
            initial_styles: ShapeStyles { fill: vec![FillStyle::Solid(white())], line: vec![black_line(20)] },
            records: vec![
                ShapeRecord::StyleChange(StyleChange {
                    move_to: Some(Vector2D { x: 10, y: 10 }),
                    left_fill: None,
                    right_fill: Some(1),
                    line_style: Some(1),
                    new_styles: None,
                }),
                ShapeRecord::Edge(Edge { delta: Vector2D { x: 80, y: 0 }, control_delta: None }),
            ],
        },
    }
}

fn identity() -> Matrix {
    Matrix { scale_x: 65536, scale_y: 65536, rotate_skew0: 0, rotate_skew1: 0, translate_x: 0, translate_y: 0 }
}

fn placement() -> PlaceObject {
    PlaceObject {
        is_update: false,
        depth: 1,
        character_id: Some(1),
        class_name: None,
        matrix: Some(identity()),
        color_transform: None,
        ratio: None,
        name: None,
        clip_depth: None,
        clip_actions: None,
        filters: None,
        blend_mode: None,
        bitmap_cache: None,
        visible: None,
        background_color: None,
    }
}

#[test]
fn define_shape_with_fill_and_line() {
    let bytes = emit_tag(&Tag::DefineShape(simple_shape(None)), 10);
    assert_eq!(
        bytes,
        vec![
            0x99, 0x00, 0x01, 0x00, 0x40, 0x03, 0x20, 0x00, 0xa0, 0x01, 0x00, 0xff, 0xff, 0xff, 0x01, 0x14, 0x00,
            0x00, 0x00, 0x00, 0x11, 0x34, 0xaa, 0x57, 0xb0, 0xa0, 0x00,
        ]
    );
}

#[test]
fn define_shape_code_follows_version() {
    // Opaque styles of few entries: code 2.
    let plain = emit_tag(&Tag::DefineShape(simple_shape(None)), 10);
    assert_eq!(u16::from_le_bytes([plain[0], plain[1]]) >> 6, 2);
    // Edge bounds: code 83, read from the header word.
    let with_bounds = emit_tag(&Tag::DefineShape(simple_shape(Some(Rect { x_min: 0, x_max: 0, y_min: 0, y_max: 0 }))), 10);
    let word = u16::from_le_bytes([with_bounds[0], with_bounds[1]]);
    assert_eq!(word >> 6, 83);
    // A translucent fill: code 32.
    let mut translucent = simple_shape(None);
    translucent.shape.initial_styles.fill = vec![FillStyle::Solid(StraightSRgba8 { r: 1, g: 2, b: 3, a: 4 })];
    let bytes = emit_tag(&Tag::DefineShape(translucent), 10);
    assert_eq!(u16::from_le_bytes([bytes[0], bytes[1]]) >> 6, 32);
    // A square cap: code 83.
    let mut capped = simple_shape(None);
    capped.shape.initial_styles.line[0].start_cap = CapStyle::Square;
    let bytes = emit_tag(&Tag::DefineShape(capped), 10);
    assert_eq!(u16::from_le_bytes([bytes[0], bytes[1]]) >> 6, 83);
}

#[test]
fn define_shape_with_many_fills_uses_code_22() {
    let mut many = simple_shape(None);
    many.shape.initial_styles.fill = vec![FillStyle::Solid(white()); 255];
    let bytes = emit_tag(&Tag::DefineShape(many), 10);
    let word = u16::from_le_bytes([bytes[0], bytes[1]]);
    assert_eq!(word >> 6, 22);
}

#[test]
fn place_object1_for_plain_placement() {
    let bytes = emit_tag(&Tag::PlaceObject(placement()), 10);
    // Code 4, length 5: character 1, depth 1, identity matrix.
    assert_eq!(bytes, vec![0x05, 0x01, 0x01, 0x00, 0x01, 0x00, 0x00]);
}

#[test]
fn place_object3_for_filters() {
    let mut p = placement();
    p.filters = Some(vec![Filter::Blur(BlurFilter { blur_x: 65536, blur_y: 65536, passes: 1 })]);
    let bytes = emit_tag(&Tag::PlaceObject(p), 10);
    let word = u16::from_le_bytes([bytes[0], bytes[1]]);
    assert_eq!(word >> 6, 70);
    assert_eq!(
        &bytes[2..],
        &[0x06, 0x01, 0x01, 0x00, 0x01, 0x00, 0x00, 0x01, 0x01, 0x00, 0x00, 0x01, 0x00, 0x00, 0x00, 0x01, 0x00, 0x08]
    );
}

#[test]
fn place_object2_for_updates_and_alpha() {
    let mut p = placement();
    p.is_update = true;
    let bytes = emit_tag(&Tag::PlaceObject(p), 10);
    assert_eq!(u16::from_le_bytes([bytes[0], bytes[1]]) >> 6, 26);
    let mut q = placement();
    q.color_transform = Some(ColorTransformWithAlpha {
        red_mult: 256,
        green_mult: 256,
        blue_mult: 256,
        alpha_mult: 128,
        red_add: 0,
        green_add: 0,
        blue_add: 0,
        alpha_add: 0,
    });
    let bytes = emit_tag(&Tag::PlaceObject(q), 10);
    assert_eq!(u16::from_le_bytes([bytes[0], bytes[1]]) >> 6, 26);
}

#[test]
fn place_object2_clip_actions_width_follows_version() {
    let mut p = placement();
    p.is_update = true;
    p.clip_actions = Some(vec![ClipAction { events: 1, key_code: None, actions: vec![0] }]);
    let old = emit_tag(&Tag::PlaceObject(p.clone()), 5);
    let new = emit_tag(&Tag::PlaceObject(p), 10);
    // Union, one action's flags and the end marker: 2 bytes wider each from SWF 6 on.
    assert_eq!(new.len(), old.len() + 6);
    assert_eq!(&old[old.len() - 2..], &[0, 0]);
}

#[test]
fn simple_tags() {
    assert_eq!(emit_tag(&Tag::ShowFrame, 10), vec![0x40, 0x00]);
    assert_eq!(
        emit_tag(&Tag::SetBackgroundColor(SetBackgroundColor { color: SRgb8 { r: 1, g: 2, b: 3 } }), 10),
        vec![0x43, 0x02, 1, 2, 3]
    );
    assert_eq!(
        emit_tag(&Tag::FrameLabel(FrameLabel { name: "a".to_string(), is_anchor: true }), 10),
        vec![0xc3, 0x0a, 0x61, 0x00, 0x01]
    );
    assert_eq!(emit_tag(&Tag::Protect(Protect { password: String::new() }), 10), vec![0x3f, 0x06, 0x00, 0x00, 0x00, 0x00]);
    assert_eq!(
        emit_tag(&Tag::RemoveObject(RemoveObject { character_id: None, depth: 3 }), 10),
        vec![0x02, 0x07, 0x03, 0x00]
    );
    assert_eq!(
        emit_tag(&Tag::RemoveObject(RemoveObject { character_id: Some(2), depth: 3 }), 10),
        vec![0x44, 0x01, 0x02, 0x00, 0x03, 0x00]
    );
    assert_eq!(
        emit_tag(&Tag::SymbolClass(SymbolClass { symbols: vec![NamedId { id: 0, name: "M".to_string() }] }), 10),
        vec![0x06, 0x13, 0x01, 0x00, 0x00, 0x00, 0x4d, 0x00]
    );
    assert_eq!(emit_tag(&Tag::RawBody(RawBody { code: 20, data: vec![9] }), 10), vec![0x3f, 0x05, 1, 0, 0, 0, 9]);
}

#[test]
fn sprite_holds_its_own_tag_string() {
    let sprite = DefineSprite { id: 3, frame_count: 1, tags: vec![Tag::ShowFrame] };
    // Code 39, length 8: id, frame count, a show-frame record, the end marker.
    assert_eq!(
        emit_tag(&Tag::DefineSprite(sprite), 10),
        vec![0xc8, 0x09, 0x03, 0x00, 0x01, 0x00, 0x40, 0x00, 0x00, 0x00]
    );
}
