use tt_rc_pro::config::{
    default_bar, default_bars, default_divider, default_element, default_elements, default_font_size,
    apply_reload, default_frametime_graph, default_gif, default_graph_max_ms, gif_path_changed, is_visible_bar, is_visible_elem, BarId,
    BarTable, Config, DragTarget, ElementId, ElementTable, FontWeight, SensorNeeds,
};

#[test]
fn element_ids_in_display_order() {
    let all = ElementId::all();
    assert_eq!(all.len(), 14);
    assert_eq!(all[0], ElementId::CpuTempLabel);
    assert_eq!(all[3], ElementId::Ram);
    assert_eq!(all[13], ElementId::Date);
    for (i, id) in all.iter().enumerate() {
        assert_eq!(id.index(), i);
    }
    assert_eq!(BarId::all(), &[BarId::CpuLoad, BarId::Ram, BarId::GpuLoad, BarId::GpuVram]);
}

#[test]
fn display_names() {
    assert_eq!(ElementId::CpuTempLabel.display_name(), "CPU Temp Label");
    assert_eq!(ElementId::Ram.display_name(), "RAM Usage");
    assert_eq!(ElementId::GpuVram.display_name(), "VRAM Usage");
    assert_eq!(ElementId::NvmeValue.display_name(), "NVMe Value");
    assert_eq!(BarId::CpuLoad.display_name(), "CPU Load Bar");
    assert_eq!(BarId::GpuVram.display_name(), "VRAM Bar");
}

#[test]
fn only_temperature_values_support_dynamic_color() {
    let dynamic: Vec<ElementId> =
        ElementId::all().iter().copied().filter(|id| id.supports_dynamic_color()).collect();
    assert_eq!(dynamic, vec![ElementId::CpuTempValue, ElementId::GpuTempValue, ElementId::NvmeValue]);
}

#[test]
fn font_weight_defaults_to_regular() {
    assert_eq!(FontWeight::default(), FontWeight::Regular);
}

#[test]
fn readme_global_defaults() {
    let c = Config::default();
    assert_eq!(c.background_color, [0, 0, 0]);
    assert_eq!(c.update_interval_secs, 2);
    assert_eq!(c.jpeg_quality, 92);
    assert_eq!(c.fps_file_path, "/tmp/tt-rc-pro-fps");
    assert_eq!(c.default_font_bold, "/usr/share/fonts/dejavu/DejaVuSans-Bold.ttf");
    assert_eq!(c.default_font_regular, "/usr/share/fonts/dejavu/DejaVuSans.ttf");
    assert_eq!(default_font_size(), 1600);
    assert_eq!(default_graph_max_ms(), 0);
}

#[test]
fn readme_frametime_graph_defaults() {
    let g = default_frametime_graph();
    assert!(g.visible);
    assert_eq!((g.x, g.y, g.width, g.height), (248, 112, 222, 14));
    assert_eq!(g.line_color, [0x44, 0x88, 0xff]);
    assert_eq!(g.bg_color, [0x1a, 0x1a, 0x1a]);
    assert_eq!(g.border_color, [0x33, 0x33, 0x33]);
    assert_eq!(g.max_ms_centi, 0);
}

#[test]
fn readme_bar_defaults() {
    let bars = default_bars();
    let cpu = bars.get(BarId::CpuLoad).unwrap();
    assert_eq!(cpu.fill_color, [0x33, 0x77, 0xff]);
    assert!(cpu.visible);
    assert_eq!((cpu.x, cpu.y, cpu.width, cpu.height), (8, 78, 222, 10));
    assert_eq!(bars.get(BarId::Ram).unwrap().fill_color, [0x88, 0x44, 0xcc]);
    let gpu = bars.get(BarId::GpuLoad).unwrap();
    assert_eq!(gpu.fill_color, [0xff, 0x88, 0x33]);
    assert!(!gpu.visible);
    assert_eq!((gpu.x, gpu.y), (248, 74));
    assert_eq!(bars.get(BarId::GpuVram).unwrap().fill_color, [0xcc, 0x44, 0x88]);
    assert_eq!(default_bar(BarId::GpuVram).y, 94);
}

#[test]
fn element_defaults() {
    let t = default_elements();
    let e = t.get(ElementId::CpuTempValue).unwrap();
    assert!(e.visible && e.use_dynamic_color);
    assert_eq!((e.x, e.y, e.font_size_centi), (8, 20, 3000));
    assert_eq!(e.font_weight, FontWeight::Bold);
    assert_eq!(e.color, [0x44, 0xff, 0x88]);
    assert!(e.font_path.is_none());
    let f = t.get(ElementId::Frametime).unwrap();
    assert!(!f.visible);
    assert_eq!((f.x, f.y, f.font_size_centi), (340, 96, 1300));
    let d = default_element(ElementId::Date);
    assert_eq!((d.x, d.y, d.color), (352, 104, [0x33, 0x33, 0x33]));
    for id in ElementId::all() {
        assert!(t.contains_key(*id));
    }
}

#[test]
fn divider_and_gif_defaults() {
    let d = default_divider();
    assert!(d.visible);
    assert_eq!((d.x, d.y_start, d.y_end, d.color), (238, 6, 122, [0x2a, 0x2a, 0x2a]));
    let g = default_gif();
    assert!(!g.visible);
    assert!(g.path.is_none());
    assert_eq!((g.x, g.y, g.width, g.height), (0, 0, 0, 0));
}

#[test]
fn sensor_needs_of_defaults() {
    let n = Config::default().sensor_needs();
    assert!(n.cpu_temp && n.cpu_load && n.ram && n.gpu_temp && n.nvme_temp);
    assert!(n.fps, "the frametime graph is shown by default");
    assert!(!n.gpu_load && !n.vram);
}

#[test]
fn sensor_needs_follow_visibility() {
    let mut c = Config::default();
    c.element_mut(ElementId::CpuLoad).visible = false;
    assert!(c.sensor_needs().cpu_load, "the CPU bar is still visible");
    c.bar_mut(BarId::CpuLoad).visible = false;
    assert!(!c.sensor_needs().cpu_load);
    c.frametime_graph.visible = false;
    assert!(!c.sensor_needs().fps);
    c.frametime_graph.visible = true;
    assert!(c.sensor_needs().fps);
    c.elements = ElementTable::new();
    c.bars = BarTable::new();
    let n = c.sensor_needs();
    assert!(!n.cpu_temp && !n.cpu_load && !n.ram && !n.gpu_temp && !n.gpu_load && !n.vram && !n.nvme_temp);
    assert!(n.fps);
}

#[test]
fn sensor_needs_all_and_none() {
    let a = SensorNeeds::all();
    assert!(a.cpu_temp && a.cpu_load && a.ram && a.gpu_temp && a.gpu_load && a.vram && a.nvme_temp && a.fps);
    let n = SensorNeeds::none();
    assert!(!(n.cpu_temp || n.cpu_load || n.ram || n.gpu_temp || n.gpu_load || n.vram || n.nvme_temp || n.fps));
}

#[test]
fn visibility_helpers() {
    let c = Config::default();
    assert!(is_visible_elem(&c.elements, ElementId::Time));
    assert!(!is_visible_elem(&c.elements, ElementId::Fps));
    assert!(is_visible_bar(&c.bars, BarId::Ram));
    assert!(!is_visible_bar(&BarTable::new(), BarId::Ram));
}

#[test]
fn resolve_font_path_prefers_element_font() {
    let mut c = Config::default();
    let e = c.elements.get(ElementId::CpuTempValue).unwrap().clone();
    assert_eq!(c.resolve_font_path(&e), "/usr/share/fonts/dejavu/DejaVuSans-Bold.ttf");
    let r = c.elements.get(ElementId::CpuLoad).unwrap().clone();
    assert_eq!(c.resolve_font_path(&r), "/usr/share/fonts/dejavu/DejaVuSans.ttf");
    c.element_mut(ElementId::CpuLoad).font_path = Some("/x/y.ttf".to_string());
    let r = c.elements.get(ElementId::CpuLoad).unwrap().clone();
    assert_eq!(c.resolve_font_path(&r), "/x/y.ttf");
}

#[test]
fn element_mut_inserts_default_when_missing() {
    let mut c = Config::default();
    c.elements = ElementTable::new();
    {
        let e = c.element_mut(ElementId::Fps);
        assert_eq!((e.x, e.y), (248, 96));
        e.x = 7;
    }
    assert_eq!(c.elements.get(ElementId::Fps).unwrap().x, 7);
    assert!(c.elements.get(ElementId::Time).is_none());
    assert_eq!(c.element_mut(ElementId::Fps).x, 7, "a present element is kept");
}

#[test]
fn bar_mut_inserts_default_when_missing() {
    let mut c = Config::default();
    c.bars = BarTable::new();
    assert_eq!(c.bar_mut(BarId::Ram).y, 112);
    assert!(c.bars.contains_key(BarId::Ram));
    assert!(!c.bars.contains_key(BarId::CpuLoad));
}

#[test]
fn set_pos_then_get_pos() {
    let mut c = Config::default();
    let targets = [
        DragTarget::Element(ElementId::Ram),
        DragTarget::Bar(BarId::GpuLoad),
        DragTarget::Divider,
        DragTarget::Gif,
        DragTarget::FrametimeGraph,
    ];
    for t in targets.iter() {
        let before_other = c.get_pos(&DragTarget::Element(ElementId::Time));
        c.set_pos(t, 11, 22);
        assert_eq!(c.get_pos(t), (11, 22));
        assert_eq!(c.get_pos(&DragTarget::Element(ElementId::Time)), before_other);
    }
    assert_eq!(c.divider.y_start, 22);
    assert_eq!(c.divider.y_end, 122);
}

#[test]
fn set_pos_on_missing_element_changes_nothing() {
    let mut c = Config::default();
    c.elements = ElementTable::new();
    c.set_pos(&DragTarget::Element(ElementId::Ram), 5, 5);
    assert!(c.elements.get(ElementId::Ram).is_none());
    assert_eq!(c.get_pos(&DragTarget::Element(ElementId::Ram)), (0, 0));
}

#[test]
fn gif_path_changes() {
    let a = Some("/a.gif".to_string());
    let b = Some("/b.gif".to_string());
    assert!(!gif_path_changed(&a, &a.clone()));
    assert!(gif_path_changed(&a, &b));
    assert!(gif_path_changed(&None, &a));
    assert!(gif_path_changed(&a, &None));
    assert!(!gif_path_changed(&None, &None));
}

#[test]
fn hot_reload_replaces_config_and_gif_only_when_needed() {
    let mut running = Config::default();
    let mut last_gif = None;

    let mut loaded = Config::default();
    loaded.jpeg_quality = 50;
    assert!(!apply_reload(&mut running, &mut last_gif, false, Some(loaded.clone())), "unchanged file");
    assert_eq!(running.jpeg_quality, 92);

    assert!(!apply_reload(&mut running, &mut last_gif, true, Some(loaded.clone())), "same GIF path");
    assert_eq!(running.jpeg_quality, 50);
    assert_eq!(last_gif, None);

    let mut with_gif = loaded.clone();
    with_gif.gif.path = Some("/a.gif".to_string());
    assert!(apply_reload(&mut running, &mut last_gif, true, Some(with_gif.clone())));
    assert_eq!(last_gif, Some("/a.gif".to_string()));
    assert_eq!(running.gif.path, Some("/a.gif".to_string()));

    with_gif.update_interval_secs = 7;
    assert!(!apply_reload(&mut running, &mut last_gif, true, Some(with_gif)), "GIF path kept");
    assert_eq!(running.update_interval_secs, 7);

    assert!(!apply_reload(&mut running, &mut last_gif, true, None), "failed load");
    assert_eq!(running.update_interval_secs, 7);
    assert_eq!(running.jpeg_quality, 50);
    assert_eq!(last_gif, Some("/a.gif".to_string()));
}
