use tt_rc_pro::config::{BarId, Config, DragTarget, ElementId};
use tt_rc_pro::render::{
    boxes_fit, compute_bounding_boxes, drag_position, elem_color, encode_jpeg, font_choice, gif_target_size, hit_test,
    load_font, local_time_from_output, render_frame, temp_level_color, temp_thresholds, unknown_local_time, with_gif_box,
    DrawOp, EncodeError, FontChoice, FontError, TempLevel, TextColor,
};
use tt_rc_pro::{H, W};

#[test]
fn temperature_colors() {
    assert_eq!(temp_level_color(TempLevel::Unknown), [0x88, 0x88, 0x88]);
    assert_eq!(temp_level_color(TempLevel::Normal), [0x44, 0xff, 0x88]);
    assert_eq!(temp_level_color(TempLevel::Warning), [0xff, 0xaa, 0x00]);
    assert_eq!(temp_level_color(TempLevel::Critical), [0xff, 0x33, 0x33]);
    assert_eq!(temp_thresholds(ElementId::CpuTempValue), Some((70, 85)));
    assert_eq!(temp_thresholds(ElementId::GpuTempValue), Some((75, 90)));
    assert_eq!(temp_thresholds(ElementId::NvmeValue), Some((55, 70)));
    assert_eq!(temp_thresholds(ElementId::CpuLoad), None);
}

#[test]
fn element_colors() {
    let mut c = Config::default();
    let e = c.elements.get(ElementId::CpuTempValue).unwrap().clone();
    assert_eq!(elem_color(&e, ElementId::CpuTempValue), TextColor::ByTemperature { warn: 70, crit: 85 });
    assert_eq!(elem_color(&e, ElementId::CpuLoad), TextColor::Fixed([0x44, 0xff, 0x88]));
    c.element_mut(ElementId::CpuTempValue).use_dynamic_color = false;
    let e = c.elements.get(ElementId::CpuTempValue).unwrap().clone();
    assert_eq!(elem_color(&e, ElementId::CpuTempValue), TextColor::Fixed([0x44, 0xff, 0x88]));
}

#[test]
fn fonts_by_path() {
    let mut c = Config::default();
    let bold = c.elements.get(ElementId::CpuTempValue).unwrap().clone();
    assert_eq!(font_choice(&c, &bold), FontChoice::DefaultBold);
    let regular = c.elements.get(ElementId::Ram).unwrap().clone();
    assert_eq!(font_choice(&c, &regular), FontChoice::DefaultRegular);
    c.element_mut(ElementId::Ram).font_path = Some("/fonts/Mono.ttf".to_string());
    let own = c.elements.get(ElementId::Ram).unwrap().clone();
    assert_eq!(font_choice(&c, &own), FontChoice::Custom("/fonts/Mono.ttf".to_string()));
    c.element_mut(ElementId::Ram).font_path = Some(c.default_font_bold.clone());
    let same = c.elements.get(ElementId::Ram).unwrap().clone();
    assert_eq!(font_choice(&c, &same), FontChoice::DefaultBold);
}

#[test]
fn default_frame_plan() {
    let c = Config::default();
    let ops = render_frame(&c, false, None);
    let kinds: Vec<String> = ops
        .iter()
        .map(|op| match op {
            DrawOp::Divider(_) => "divider".to_string(),
            DrawOp::Text { id, .. } => format!("{:?}", id),
            DrawOp::Bar { id, .. } => format!("bar {:?}", id),
            DrawOp::FrametimeGraph(_) => "graph".to_string(),
            DrawOp::GifOverlay { .. } => "gif".to_string(),
        })
        .collect();
    assert_eq!(
        kinds,
        vec![
            "divider", "CpuTempLabel", "CpuTempValue", "CpuLoad", "bar CpuLoad", "Ram", "bar Ram",
            "GpuTempLabel", "GpuTempValue", "NvmeLabel", "NvmeValue", "Time", "Date",
        ]
    );
    match ops[2] {
        DrawOp::Text { x, y, font_size_centi, color, .. } => {
            assert_eq!((x, y, font_size_centi), (8, 20, 3000));
            assert_eq!(color, TextColor::ByTemperature { warn: 70, crit: 85 });
        }
        _ => panic!("expected the CPU temperature"),
    }
}

#[test]
fn graph_and_gif_drawn_last() {
    let mut c = Config::default();
    c.frametime_graph.visible = true;
    c.gif.visible = true;
    c.gif.width = 40;
    c.gif.x = 350;
    let ops = render_frame(&c, true, Some((64, 48)));
    assert!(matches!(ops[ops.len() - 2], DrawOp::FrametimeGraph(_)));
    match ops[ops.len() - 1] {
        DrawOp::GifOverlay { x, y, width, height } => assert_eq!((x, y, width, height), (350, 0, 40, 48)),
        _ => panic!("the GIF comes last"),
    }
    let without_samples = render_frame(&c, false, None);
    assert!(!without_samples.iter().any(|op| matches!(op, DrawOp::FrametimeGraph(_) | DrawOp::GifOverlay { .. })));
}

#[test]
fn gif_sizes() {
    let mut c = Config::default();
    assert_eq!(gif_target_size(&c.gif, (64, 48)), (64, 48));
    c.gif.height = 10;
    assert_eq!(gif_target_size(&c.gif, (64, 48)), (64, 10));
}

#[test]
fn bounding_boxes_of_defaults() {
    let c = Config::default();
    let widths: Vec<u32> = (0..14u32).map(|i| 10 + i).collect();
    let boxes = compute_bounding_boxes(&c, &widths);
    assert_eq!(boxes[0], (DragTarget::Element(ElementId::CpuTempLabel), (8, 4, 10, 13)));
    assert_eq!(boxes[1], (DragTarget::Element(ElementId::CpuTempValue), (8, 20, 11, 30)));
    let bars: Vec<_> = boxes.iter().filter(|b| matches!(b.0, DragTarget::Bar(_))).collect();
    assert_eq!(bars.len(), 2);
    assert_eq!(*bars[0], (DragTarget::Bar(BarId::CpuLoad), (8, 78, 222, 10)));
    assert_eq!(*boxes.last().unwrap(), (DragTarget::Divider, (236, 6, 4, 116)));
}

#[test]
fn gif_box_placeholder_and_override() {
    let mut c = Config::default();
    c.gif.visible = true;
    c.gif.path = Some("/a.gif".to_string());
    c.gif.x = 5;
    let widths = vec![0u32; 14];
    let boxes = compute_bounding_boxes(&c, &widths);
    assert_eq!(*boxes.last().unwrap(), (DragTarget::Gif, (5, 0, 32, 32)));
    let n = boxes.len();
    let fitted = with_gif_box(boxes, &c, Some((64, 48)));
    assert_eq!(fitted.len(), n);
    assert_eq!(*fitted.last().unwrap(), (DragTarget::Gif, (5, 0, 64, 48)));
    assert_eq!(fitted.iter().filter(|b| b.0 == DragTarget::Gif).count(), 1);
}

#[test]
fn hit_test_prefers_topmost() {
    let boxes = vec![
        (DragTarget::Divider, (0, 0, 100, 100)),
        (DragTarget::Gif, (10, 10, 20, 20)),
    ];
    assert_eq!(hit_test(15, 15, &boxes), Some(DragTarget::Gif));
    assert_eq!(hit_test(5, 5, &boxes), Some(DragTarget::Divider));
    assert_eq!(hit_test(30, 30, &boxes), Some(DragTarget::Divider), "right edge is outside the GIF");
    assert_eq!(hit_test(100, 0, &boxes), None);
    assert_eq!(hit_test(-1, 0, &boxes), None);
}

#[test]
fn hit_test_wraps_oversized_boxes() {
    let boxes = vec![
        (DragTarget::Divider, (0, 0, 100, 100)),
        (DragTarget::Gif, (10, 10, 0x8000_0000, 20)),
    ];
    assert!(boxes_fit(15, 15, &boxes));
    assert_eq!(hit_test(15, 15, &boxes), Some(DragTarget::Divider), "a width past i32::MAX wraps below zero");
    let huge = vec![(DragTarget::Gif, (10, 10, 0xffff_fff0, 20))];
    assert!(boxes_fit(5, 15, &huge));
    assert_eq!(hit_test(5, 15, &huge), None);
    let edge = vec![(DragTarget::Gif, (i32::MAX - 5, 0, 10, 10))];
    assert!(!boxes_fit(i32::MAX, 0, &edge), "the right edge would overflow");
    assert!(boxes_fit(0, 0, &edge), "a point left of the box computes no edge");
    assert_eq!(hit_test(0, 0, &edge), None);
    let covered = vec![(DragTarget::Gif, (i32::MAX - 5, 0, 10, 10)), (DragTarget::Divider, (0, 0, 100, 100))];
    assert!(boxes_fit(i32::MAX, 0, &covered) == false);
    assert!(boxes_fit(50, 50, &covered), "the top box holds the point, so the test stops there");
}

#[test]
fn drags_stay_on_panel() {
    assert_eq!(drag_position((10, 10), 5, -3), (15, 7));
    assert_eq!(drag_position((10, 10), -50, 500), (0, H as i32 - 1));
    assert_eq!(drag_position((470, 0), 100, 0), (W as i32 - 1, 0));
}

#[test]
fn jpeg_encoding() {
    let pixels = vec![0x80u8; (W * H * 3) as usize];
    let jpeg = encode_jpeg(&pixels, 92).unwrap();
    assert_eq!(&jpeg[..2], &[0xff, 0xd8]);
    assert_eq!(&jpeg[jpeg.len() - 2..], &[0xff, 0xd9]);
    assert!(jpeg.len() < pixels.len());
    let _: Result<Vec<u8>, EncodeError> = encode_jpeg(&pixels, 10);
}

#[test]
fn date_command_output() {
    let t = local_time_from_output("12:34:56\n04/05\n");
    assert_eq!((t.time_str.as_str(), t.date_str.as_str()), ("12:34:56", "04/05"));
    let t = local_time_from_output("12:34:56\r\n04/05");
    assert_eq!((t.time_str.as_str(), t.date_str.as_str()), ("12:34:56", "04/05"));
    let t = local_time_from_output("12:34:56\n");
    assert_eq!((t.time_str.as_str(), t.date_str.as_str()), ("12:34:56", "01/01"));
    let t = local_time_from_output("");
    assert_eq!((t.time_str.as_str(), t.date_str.as_str()), ("00:00:00", "01/01"));
    let u = unknown_local_time();
    assert_eq!((u.time_str.as_str(), u.date_str.as_str()), ("??", "??"));
}

#[test]
fn fonts_refuse_bytes_that_are_no_font() {
    assert!(matches!(load_font(b"not a font".to_vec()), Err(FontError::Invalid)));
    assert!(matches!(load_font(Vec::new()), Err(FontError::Invalid)));
}
