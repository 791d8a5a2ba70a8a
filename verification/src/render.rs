//! What a frame shows and where: the drawing plan of a frame, the colours of temperature
//! readings, fonts, the boxes used to pick elements with the mouse, and JPEG encoding.

use image::ImageEncoder;
use vstd::prelude::*;

use crate::config::{
    bar_visible, elem_visible, spec_font_path, BarConfig, BarId, Config, DividerConfig, DragTarget,
    ElementConfig, ElementId, FrametimeGraphConfig, GifConfig, element_supports_dynamic_color,
};
use crate::text::chars_eq;
use crate::text::{chars_of, slice_chars, string_of};
use crate::{H, W};

verus! {

/// How hot a temperature reading is against its element's thresholds.
#[derive(Debug, Clone, Copy, PartialEq, Eq, Structural)]
pub enum TempLevel {
    /// No reading.
    Unknown,
    /// Below the warning threshold.
    Normal,
    /// At or above the warning threshold, below the critical one.
    Warning,
    /// At or above the critical threshold.
    Critical,
}

/// Colour of a reading by level: grey without a reading, then green, yellow and red.
pub open spec fn spec_temp_level_color(level: TempLevel) -> [u8; 3] {
    match level {
        TempLevel::Unknown => [0x88u8, 0x88u8, 0x88u8],
        TempLevel::Normal => [0x44u8, 0xffu8, 0x88u8],
        TempLevel::Warning => [0xffu8, 0xaau8, 0x00u8],
        TempLevel::Critical => [0xffu8, 0x33u8, 0x33u8],
    }
}

/// Dynamic temperature color: green → yellow → red based on thresholds.
pub fn temp_level_color(level: TempLevel) -> (r: [u8; 3])
    ensures
        r == spec_temp_level_color(level),
{
    match level {
        TempLevel::Unknown => [0x88, 0x88, 0x88],
        TempLevel::Normal => [0x44, 0xff, 0x88],
        TempLevel::Warning => [0xff, 0xaa, 0x00],
        TempLevel::Critical => [0xff, 0x33, 0x33],
    }
}

/// Warning and critical thresholds, in degrees Celsius, of the elements that show a
/// temperature: CPU 70/85, GPU 75/90, NVMe 55/70.
pub open spec fn spec_temp_thresholds(id: ElementId) -> Option<(u32, u32)> {
    match id {
        ElementId::CpuTempValue => Some((70, 85)),
        ElementId::GpuTempValue => Some((75, 90)),
        ElementId::NvmeValue => Some((55, 70)),
        _ => None,
    }
}

/// Warning and critical thresholds of an element that shows a temperature.
pub fn temp_thresholds(id: ElementId) -> (r: Option<(u32, u32)>)
    ensures
        r == spec_temp_thresholds(id),
        r is Some == element_supports_dynamic_color(id),
{
    match id {
        ElementId::CpuTempValue => Some((70, 85)),
        ElementId::GpuTempValue => Some((75, 90)),
        ElementId::NvmeValue => Some((55, 70)),
        _ => None,
    }
}

/// How the colour of a text element is chosen.
#[derive(Debug, Clone, Copy, PartialEq, Eq)]
pub enum TextColor {
    /// The element's own colour.
    Fixed([u8; 3]),
    /// The colour of the reading's level against these warning and critical thresholds.
    ByTemperature { warn: u32, crit: u32 },
}

/// An element's colour: by temperature where it asks for it and shows a temperature,
/// its own colour otherwise.
pub open spec fn spec_element_color(elem: ElementConfig, id: ElementId) -> TextColor {
    if elem.use_dynamic_color && element_supports_dynamic_color(id) {
        let (warn, crit) = spec_temp_thresholds(id)->0;
        TextColor::ByTemperature { warn: warn, crit: crit }
    } else {
        TextColor::Fixed(elem.color)
    }
}

/// Resolve the effective color for a text element.
pub fn elem_color(elem: &ElementConfig, id: ElementId) -> (r: TextColor)
    ensures
        r == spec_element_color(*elem, id),
{
    if elem.use_dynamic_color && id.supports_dynamic_color() {
        match temp_thresholds(id) {
            Some((warn, crit)) => TextColor::ByTemperature { warn, crit },
            None => TextColor::Fixed(elem.color),
        }
    } else {
        TextColor::Fixed(elem.color)
    }
}

/// Which loaded font draws an element.
#[derive(Debug, Clone, PartialEq, Eq)]
pub enum FontChoice {
    /// The configuration's default bold font.
    DefaultBold,
    /// The configuration's default regular font.
    DefaultRegular,
    /// A font file of the element's own, loaded once and kept by path.
    Custom(String),
}

/// Font used for an element: its resolved path is compared with the default bold path
/// first, then with the default regular path; any other path is a font of its own.
pub open spec fn spec_font_choice_is(c: Config, elem: ElementConfig, r: FontChoice) -> bool {
    let p = spec_font_path(c, elem);
    if p == c.default_font_bold@ {
        r == FontChoice::DefaultBold
    } else if p == c.default_font_regular@ {
        r == FontChoice::DefaultRegular
    } else {
        r matches FontChoice::Custom(s) && s@ == p
    }
}

/// Get the resolved font for an element, as the font cache looks it up.
pub fn font_choice(config: &Config, elem: &ElementConfig) -> (r: FontChoice)
    ensures
        spec_font_choice_is(*config, *elem, r),
{
    let path = chars_of(config.resolve_font_path(elem));
    let bold = chars_of(config.default_font_bold.as_str());
    if chars_eq(path.as_slice(), bold.as_slice()) {
        return FontChoice::DefaultBold;
    }
    let regular = chars_of(config.default_font_regular.as_str());
    if chars_eq(path.as_slice(), regular.as_slice()) {
        return FontChoice::DefaultRegular;
    }
    FontChoice::Custom(crate::text::string_of(path.as_slice()))
}

/// Size at which the GIF is drawn: the configured width and height, each replaced by the
/// file's own where it is 0.
pub open spec fn spec_gif_target_size(gif: GifConfig, original: (u32, u32)) -> (u32, u32) {
    (if gif.width > 0 { gif.width } else { original.0 }, if gif.height > 0 {
        gif.height
    } else {
        original.1
    })
}

/// Determine target size: use config values, or original GIF size if 0.
pub fn gif_target_size(gif: &GifConfig, original: (u32, u32)) -> (r: (u32, u32))
    ensures
        r == spec_gif_target_size(*gif, original),
{
    let w = if gif.width > 0 {
        gif.width
    } else {
        original.0
    };
    let h = if gif.height > 0 {
        gif.height
    } else {
        original.1
    };
    (w, h)
}

/// One drawing operation of a frame.
#[derive(Debug, Clone, Copy)]
pub enum DrawOp {
    /// The divider line.
    Divider(DividerConfig),
    /// A text element's reading or label, with its position, size and colour.
    Text { id: ElementId, x: i32, y: i32, font_size_centi: u32, color: TextColor },
    /// A progress bar.
    Bar { id: BarId, bar: BarConfig },
    /// The frametime graph.
    FrametimeGraph(FrametimeGraphConfig),
    /// The current GIF frame, scaled to the given size, on top of everything.
    GifOverlay { x: i32, y: i32, width: u32, height: u32 },
}

/// The drawing of a text element, when it is present and visible.
pub open spec fn text_ops(c: Config, id: ElementId) -> Seq<DrawOp> {
    if elem_visible(c.elements, id) {
        let e = c.elements.entry(id)->0;
        seq![DrawOp::Text { id: id, x: e.x, y: e.y, font_size_centi: e.font_size_centi, color: spec_element_color(e, id) }]
    } else {
        seq![]
    }
}

/// The drawing of a bar, when it is present and visible.
pub open spec fn bar_ops(c: Config, id: BarId) -> Seq<DrawOp> {
    if bar_visible(c.bars, id) {
        seq![DrawOp::Bar { id: id, bar: c.bars.entry(id)->0 }]
    } else {
        seq![]
    }
}

/// The drawing of the divider, when it is visible.
pub open spec fn divider_ops(c: Config) -> Seq<DrawOp> {
    if c.divider.visible {
        seq![DrawOp::Divider(c.divider)]
    } else {
        seq![]
    }
}

/// The drawing of the frametime graph, when it is visible and there are samples.
pub open spec fn graph_ops(c: Config, has_samples: bool) -> Seq<DrawOp> {
    if c.frametime_graph.visible && has_samples {
        seq![DrawOp::FrametimeGraph(c.frametime_graph)]
    } else {
        seq![]
    }
}

/// The drawing of the GIF, when it is visible and loaded (with the size of its first frame).
pub open spec fn gif_ops(c: Config, loaded: Option<(u32, u32)>) -> Seq<DrawOp> {
    match loaded {
        Some(original) => if c.gif.visible {
            let (w, h) = spec_gif_target_size(c.gif, original);
            seq![DrawOp::GifOverlay { x: c.gif.x, y: c.gif.y, width: w, height: h }]
        } else {
            seq![]
        },
        None => seq![],
    }
}

/// Everything a frame draws, in order, over the background: the divider; the CPU panel
/// (labels, readings and bars); the GPU panel; FPS and frame time; NVMe; time and date;
/// the frametime graph; and last, on top of everything, the GIF.
pub open spec fn spec_render_plan(c: Config, has_samples: bool, loaded: Option<(u32, u32)>) -> Seq<DrawOp> {
    plan_under_gif(c, has_samples) + gif_ops(c, loaded)
}

/// Everything a frame draws below the GIF.
pub open spec fn plan_under_gif(c: Config, has_samples: bool) -> Seq<DrawOp> {
    divider_ops(c) + text_ops(c, ElementId::CpuTempLabel) + text_ops(c, ElementId::CpuTempValue)
        + text_ops(c, ElementId::CpuLoad) + bar_ops(c, BarId::CpuLoad) + text_ops(c, ElementId::Ram)
        + bar_ops(c, BarId::Ram) + text_ops(c, ElementId::GpuTempLabel) + text_ops(
        c,
        ElementId::GpuTempValue,
    ) + text_ops(c, ElementId::GpuLoad) + bar_ops(c, BarId::GpuLoad) + text_ops(c, ElementId::GpuVram)
        + bar_ops(c, BarId::GpuVram) + text_ops(c, ElementId::Fps) + text_ops(c, ElementId::Frametime)
        + text_ops(c, ElementId::NvmeLabel) + text_ops(c, ElementId::NvmeValue) + text_ops(
        c,
        ElementId::Time,
    ) + text_ops(c, ElementId::Date) + graph_ops(c, has_samples)
}

fn push_text(ops: &mut Vec<DrawOp>, c: &Config, id: ElementId)
    ensures
        final(ops)@ == old(ops)@ + text_ops(*c, id),
{
    if let Some(e) = c.elements.get(id) {
        if e.visible {
            ops.push(
                DrawOp::Text {
                    id,
                    x: e.x,
                    y: e.y,
                    font_size_centi: e.font_size_centi,
                    color: elem_color(e, id),
                },
            );
            return ;
        }
    }
    assert(ops@ =~= old(ops)@ + text_ops(*c, id));
}

fn push_bar(ops: &mut Vec<DrawOp>, c: &Config, id: BarId)
    ensures
        final(ops)@ == old(ops)@ + bar_ops(*c, id),
{
    if let Some(b) = c.bars.get(id) {
        if b.visible {
            ops.push(DrawOp::Bar { id, bar: *b });
            return ;
        }
    }
    assert(ops@ =~= old(ops)@ + bar_ops(*c, id));
}

/// Render a frame: the drawing operations, in order, for a configuration, given whether
/// the frametime history holds samples and the size of the loaded GIF, if any.
pub fn render_frame(config: &Config, has_samples: bool, loaded_gif: Option<(u32, u32)>) -> (r: Vec<DrawOp>)
    ensures
        r@ == spec_render_plan(*config, has_samples, loaded_gif),
{
    let mut ops: Vec<DrawOp> = Vec::new();
    if config.divider.visible {
        ops.push(DrawOp::Divider(config.divider));
    }
    assert(ops@ =~= divider_ops(*config));
    // Left panel: CPU.
    push_text(&mut ops, config, ElementId::CpuTempLabel);
    push_text(&mut ops, config, ElementId::CpuTempValue);
    push_text(&mut ops, config, ElementId::CpuLoad);
    push_bar(&mut ops, config, BarId::CpuLoad);
    push_text(&mut ops, config, ElementId::Ram);
    push_bar(&mut ops, config, BarId::Ram);
    // Right panel: GPU + NVMe + time.
    push_text(&mut ops, config, ElementId::GpuTempLabel);
    push_text(&mut ops, config, ElementId::GpuTempValue);
    push_text(&mut ops, config, ElementId::GpuLoad);
    push_bar(&mut ops, config, BarId::GpuLoad);
    push_text(&mut ops, config, ElementId::GpuVram);
    push_bar(&mut ops, config, BarId::GpuVram);
    push_text(&mut ops, config, ElementId::Fps);
    push_text(&mut ops, config, ElementId::Frametime);
    push_text(&mut ops, config, ElementId::NvmeLabel);
    push_text(&mut ops, config, ElementId::NvmeValue);
    push_text(&mut ops, config, ElementId::Time);
    push_text(&mut ops, config, ElementId::Date);
    let ghost before_graph = ops@;
    if config.frametime_graph.visible && has_samples {
        ops.push(DrawOp::FrametimeGraph(config.frametime_graph));
    }
    assert(ops@ =~= before_graph + graph_ops(*config, has_samples));
    let ghost before_gif = ops@;
    // GIF overlay (rendered last, on top of everything).
    if config.gif.visible {
        if let Some(original) = loaded_gif {
            let (width, height) = gif_target_size(&config.gif, original);
            ops.push(DrawOp::GifOverlay { x: config.gif.x, y: config.gif.y, width, height });
        }
    }
    assert(ops@ =~= before_gif + gif_ops(*config, loaded_gif));
    ops
}

/// No operation of the sequence draws the GIF.
pub open spec fn no_gif(s: Seq<DrawOp>) -> bool {
    forall|i: int| 0 <= i < s.len() ==> !(#[trigger] s[i] is GifOverlay)
}

proof fn lemma_no_gif_concat(a: Seq<DrawOp>, b: Seq<DrawOp>)
    requires
        no_gif(a),
        no_gif(b),
    ensures
        no_gif(a + b),
{
    assert forall|i: int| 0 <= i < (a + b).len() implies !(#[trigger] (a + b)[i] is GifOverlay) by {
        if i < a.len() {
            assert((a + b)[i] == a[i]);
        } else {
            assert((a + b)[i] == b[i - a.len()]);
        }
    }
}

/// The GIF, when drawn, is the last operation of a frame: nothing covers it.
pub proof fn lemma_gif_drawn_last(c: Config, has_samples: bool, loaded: Option<(u32, u32)>)
    requires
        c.gif.visible,
        loaded is Some,
    ensures
        spec_render_plan(c, has_samples, loaded).last() is GifOverlay,
        no_gif(spec_render_plan(c, has_samples, loaded).drop_last()),
{
    assert forall|id: ElementId| no_gif(#[trigger] text_ops(c, id)) by {}
    assert forall|id: BarId| no_gif(#[trigger] bar_ops(c, id)) by {}
    assert(no_gif(divider_ops(c)));
    assert(no_gif(graph_ops(c, has_samples)));
    let mut acc = divider_ops(c);
    lemma_no_gif_concat(acc, text_ops(c, ElementId::CpuTempLabel));
    acc = acc + text_ops(c, ElementId::CpuTempLabel);
    lemma_no_gif_concat(acc, text_ops(c, ElementId::CpuTempValue));
    acc = acc + text_ops(c, ElementId::CpuTempValue);
    lemma_no_gif_concat(acc, text_ops(c, ElementId::CpuLoad));
    acc = acc + text_ops(c, ElementId::CpuLoad);
    lemma_no_gif_concat(acc, bar_ops(c, BarId::CpuLoad));
    acc = acc + bar_ops(c, BarId::CpuLoad);
    lemma_no_gif_concat(acc, text_ops(c, ElementId::Ram));
    acc = acc + text_ops(c, ElementId::Ram);
    lemma_no_gif_concat(acc, bar_ops(c, BarId::Ram));
    acc = acc + bar_ops(c, BarId::Ram);
    lemma_no_gif_concat(acc, text_ops(c, ElementId::GpuTempLabel));
    acc = acc + text_ops(c, ElementId::GpuTempLabel);
    lemma_no_gif_concat(acc, text_ops(c, ElementId::GpuTempValue));
    acc = acc + text_ops(c, ElementId::GpuTempValue);
    lemma_no_gif_concat(acc, text_ops(c, ElementId::GpuLoad));
    acc = acc + text_ops(c, ElementId::GpuLoad);
    lemma_no_gif_concat(acc, bar_ops(c, BarId::GpuLoad));
    acc = acc + bar_ops(c, BarId::GpuLoad);
    lemma_no_gif_concat(acc, text_ops(c, ElementId::GpuVram));
    acc = acc + text_ops(c, ElementId::GpuVram);
    lemma_no_gif_concat(acc, bar_ops(c, BarId::GpuVram));
    acc = acc + bar_ops(c, BarId::GpuVram);
    lemma_no_gif_concat(acc, text_ops(c, ElementId::Fps));
    acc = acc + text_ops(c, ElementId::Fps);
    lemma_no_gif_concat(acc, text_ops(c, ElementId::Frametime));
    acc = acc + text_ops(c, ElementId::Frametime);
    lemma_no_gif_concat(acc, text_ops(c, ElementId::NvmeLabel));
    acc = acc + text_ops(c, ElementId::NvmeLabel);
    lemma_no_gif_concat(acc, text_ops(c, ElementId::NvmeValue));
    acc = acc + text_ops(c, ElementId::NvmeValue);
    lemma_no_gif_concat(acc, text_ops(c, ElementId::Time));
    acc = acc + text_ops(c, ElementId::Time);
    lemma_no_gif_concat(acc, text_ops(c, ElementId::Date));
    acc = acc + text_ops(c, ElementId::Date);
    lemma_no_gif_concat(acc, graph_ops(c, has_samples));
    acc = acc + graph_ops(c, has_samples);
    assert(acc == plan_under_gif(c, has_samples));
    let p = spec_render_plan(c, has_samples, loaded);
    assert(p.drop_last() =~= acc);
}


/// How many items of the sequence satisfy `f`.
pub open spec fn count_where<A>(s: Seq<A>, f: spec_fn(A) -> bool) -> nat
    decreases s.len(),
{
    if s.len() == 0 {
        0
    } else {
        count_where(s.drop_last(), f) + if f(s.last()) {
            1nat
        } else {
            0nat
        }
    }
}

/// Counting over two sequences put end to end adds the counts.
pub proof fn lemma_count_where_concat<A>(a: Seq<A>, b: Seq<A>, f: spec_fn(A) -> bool)
    ensures
        count_where(a + b, f) == count_where(a, f) + count_where(b, f),
    decreases b.len(),
{
    if b.len() == 0 {
        assert(a + b =~= a);
    } else {
        assert((a + b).drop_last() =~= a + b.drop_last());
        assert((a + b).last() == b.last());
        lemma_count_where_concat(a, b.drop_last(), f);
    }
}

/// The drawings of bar `id`, whatever their settings.
pub open spec fn draws_bar(id: BarId) -> spec_fn(DrawOp) -> bool {
    |op: DrawOp| op matches DrawOp::Bar { id: i, .. } && i == id
}

/// The drawings of text element `id`, wherever they stand.
pub open spec fn draws_text(id: ElementId) -> spec_fn(DrawOp) -> bool {
    |op: DrawOp| op matches DrawOp::Text { id: i, .. } && i == id
}

/// The drawings of text element `id` at this position and size.
pub open spec fn draws_text_at(id: ElementId, x: i32, y: i32, size: u32) -> spec_fn(DrawOp) -> bool {
    |op: DrawOp|
        op matches DrawOp::Text { id: i, x: ox, y: oy, font_size_centi: f, .. } && i == id && ox == x && oy
            == y && f == size
}

/// The operations equal to `op`.
pub open spec fn draws_exactly(op: DrawOp) -> spec_fn(DrawOp) -> bool {
    |o: DrawOp| o == op
}

proof fn lemma_count_small<A>(f: spec_fn(A) -> bool)
    ensures
        count_where(Seq::<A>::empty(), f) == 0,
        forall|x: A| #[trigger] count_where(seq![x], f) == if f(x) {
            1nat
        } else {
            0nat
        },
{
    assert forall|x: A| #[trigger] count_where(seq![x], f) == if f(x) {
        1nat
    } else {
        0nat
    } by {
        assert(seq![x].drop_last() =~= Seq::<A>::empty());
        assert(seq![x].last() == x);
        assert(count_where(Seq::<A>::empty(), f) == 0);
    }
}

/// How the parts of a plan count for a query that only bars of one kind can meet: texts,
/// the divider, the graph and the GIF not at all, a bar of another kind not at all.
proof fn lemma_bar_query_parts(c: Config, has_samples: bool, loaded: Option<(u32, u32)>, bar: BarId, f: spec_fn(DrawOp) -> bool)
    requires
        forall|op: DrawOp| #[trigger] f(op) ==> (op matches DrawOp::Bar { id: i, .. } && i == bar),
    ensures
        forall|id: ElementId| #[trigger] count_where(text_ops(c, id), f) == 0,
        forall|id: BarId| id != bar ==> #[trigger] count_where(bar_ops(c, id), f) == 0,
        count_where(divider_ops(c), f) == 0,
        count_where(graph_ops(c, has_samples), f) == 0,
        count_where(gif_ops(c, loaded), f) == 0,
{
    lemma_count_small(f);
    assert forall|id: ElementId| #[trigger] count_where(text_ops(c, id), f) == 0 by {
        if elem_visible(c.elements, id) {
            let e = c.elements.entry(id)->0;
            assert(!f(DrawOp::Text { id: id, x: e.x, y: e.y, font_size_centi: e.font_size_centi, color: spec_element_color(e, id) }));
        }
    }
    assert forall|id: BarId| id != bar implies #[trigger] count_where(bar_ops(c, id), f) == 0 by {
        if bar_visible(c.bars, id) {
            assert(!f(DrawOp::Bar { id: id, bar: c.bars.entry(id)->0 }));
        }
    }
    if c.divider.visible {
        assert(!f(DrawOp::Divider(c.divider)));
    }
    if c.frametime_graph.visible && has_samples {
        assert(!f(DrawOp::FrametimeGraph(c.frametime_graph)));
    }
    if let Some(original) = loaded {
        if c.gif.visible {
            let (w, h) = spec_gif_target_size(c.gif, original);
            assert(!f(DrawOp::GifOverlay { x: c.gif.x, y: c.gif.y, width: w, height: h }));
        }
    }
}

/// How the parts of a plan count for a query that only texts of one element can meet.
proof fn lemma_text_query_parts(c: Config, has_samples: bool, loaded: Option<(u32, u32)>, elem: ElementId, f: spec_fn(DrawOp) -> bool)
    requires
        forall|op: DrawOp| #[trigger] f(op) ==> (op matches DrawOp::Text { id: i, .. } && i == elem),
    ensures
        forall|id: ElementId| id != elem ==> #[trigger] count_where(text_ops(c, id), f) == 0,
        forall|id: BarId| #[trigger] count_where(bar_ops(c, id), f) == 0,
        count_where(divider_ops(c), f) == 0,
        count_where(graph_ops(c, has_samples), f) == 0,
        count_where(gif_ops(c, loaded), f) == 0,
{
    lemma_count_small(f);
    assert forall|id: ElementId| id != elem implies #[trigger] count_where(text_ops(c, id), f) == 0 by {
        if elem_visible(c.elements, id) {
            let e = c.elements.entry(id)->0;
            assert(!f(DrawOp::Text { id: id, x: e.x, y: e.y, font_size_centi: e.font_size_centi, color: spec_element_color(e, id) }));
        }
    }
    assert forall|id: BarId| #[trigger] count_where(bar_ops(c, id), f) == 0 by {
        if bar_visible(c.bars, id) {
            assert(!f(DrawOp::Bar { id: id, bar: c.bars.entry(id)->0 }));
        }
    }
    if c.divider.visible {
        assert(!f(DrawOp::Divider(c.divider)));
    }
    if c.frametime_graph.visible && has_samples {
        assert(!f(DrawOp::FrametimeGraph(c.frametime_graph)));
    }
    if let Some(original) = loaded {
        if c.gif.visible {
            let (w, h) = spec_gif_target_size(c.gif, original);
            assert(!f(DrawOp::GifOverlay { x: c.gif.x, y: c.gif.y, width: w, height: h }));
        }
    }
}

/// A bar query counts the plan as it counts the bar's own part.
proof fn lemma_bar_query_plan(c: Config, has_samples: bool, loaded: Option<(u32, u32)>, bar: BarId, f: spec_fn(DrawOp) -> bool)
    requires
        forall|op: DrawOp| #[trigger] f(op) ==> (op matches DrawOp::Bar { id: i, .. } && i == bar),
    ensures
        count_where(spec_render_plan(c, has_samples, loaded), f) == count_where(bar_ops(c, bar), f),
{
    lemma_plan_count(c, has_samples, loaded, f);
    lemma_bar_query_parts(c, has_samples, loaded, bar, f);
    let b = count_where(bar_ops(c, bar), f);
    assert(count_where(bar_ops(c, BarId::CpuLoad), f) == if bar == BarId::CpuLoad { b } else { 0 });
    assert(count_where(bar_ops(c, BarId::Ram), f) == if bar == BarId::Ram { b } else { 0 });
    assert(count_where(bar_ops(c, BarId::GpuLoad), f) == if bar == BarId::GpuLoad { b } else { 0 });
    assert(count_where(bar_ops(c, BarId::GpuVram), f) == if bar == BarId::GpuVram { b } else { 0 });
}

/// A text query counts the plan as it counts the element's own part.
proof fn lemma_text_query_plan(c: Config, has_samples: bool, loaded: Option<(u32, u32)>, elem: ElementId, f: spec_fn(DrawOp) -> bool)
    requires
        forall|op: DrawOp| #[trigger] f(op) ==> (op matches DrawOp::Text { id: i, .. } && i == elem),
    ensures
        count_where(spec_render_plan(c, has_samples, loaded), f) == count_where(text_ops(c, elem), f),
{
    lemma_plan_count(c, has_samples, loaded, f);
    lemma_text_query_parts(c, has_samples, loaded, elem, f);
    let t = count_where(text_ops(c, elem), f);
    assert forall|id: ElementId| #[trigger] count_where(text_ops(c, id), f) == if id == elem { t } else { 0 } by {}
}

/// Every visible bar is drawn exactly once, with its configured settings, and a hidden or
/// absent bar not at all.
pub proof fn lemma_plan_draws_visible_bar_once(c: Config, has_samples: bool, loaded: Option<(u32, u32)>, bar: BarId)
    ensures
        count_where(spec_render_plan(c, has_samples, loaded), draws_bar(bar)) == if (c.bars.entry(bar) matches Some(
            b,
        ) && b.visible) {
            1nat
        } else {
            0nat
        },
        (c.bars.entry(bar) matches Some(b) && b.visible) ==> count_where(
            spec_render_plan(c, has_samples, loaded),
            draws_exactly(DrawOp::Bar { id: bar, bar: c.bars.entry(bar)->0 }),
        ) == 1,
{
    let fb = draws_bar(bar);
    lemma_count_small(fb);
    lemma_bar_query_plan(c, has_samples, loaded, bar, fb);
    let fx = draws_exactly(DrawOp::Bar { id: bar, bar: c.bars.entry(bar)->0 });
    lemma_count_small(fx);
    lemma_bar_query_plan(c, has_samples, loaded, bar, fx);
}

/// Every visible text element is drawn exactly once, at its configured position and size,
/// and a hidden or absent one not at all.
pub proof fn lemma_plan_draws_visible_text_once(
    c: Config,
    has_samples: bool,
    loaded: Option<(u32, u32)>,
    elem: ElementId,
)
    ensures
        count_where(spec_render_plan(c, has_samples, loaded), draws_text(elem)) == if (c.elements.entry(
            elem,
        ) matches Some(e) && e.visible) {
            1nat
        } else {
            0nat
        },
        (c.elements.entry(elem) matches Some(e) && e.visible) ==> count_where(
            spec_render_plan(c, has_samples, loaded),
            draws_text_at(
                elem,
                c.elements.entry(elem)->0.x,
                c.elements.entry(elem)->0.y,
                c.elements.entry(elem)->0.font_size_centi,
            ),
        ) == 1,
{
    let ft = draws_text(elem);
    lemma_count_small(ft);
    lemma_text_query_plan(c, has_samples, loaded, elem, ft);
    let fa = draws_text_at(
        elem,
        c.elements.entry(elem)->0.x,
        c.elements.entry(elem)->0.y,
        c.elements.entry(elem)->0.font_size_centi,
    );
    lemma_count_small(fa);
    lemma_text_query_plan(c, has_samples, loaded, elem, fa);
}

/// A count over a frame's plan is the sum of the counts over its parts.
proof fn lemma_plan_count(c: Config, has_samples: bool, loaded: Option<(u32, u32)>, f: spec_fn(DrawOp) -> bool)
    ensures
        count_where(spec_render_plan(c, has_samples, loaded), f) == count_where(divider_ops(c), f) + count_where(text_ops(c, ElementId::CpuTempLabel), f) + count_where(text_ops(c, ElementId::CpuTempValue), f) + count_where(text_ops(c, ElementId::CpuLoad), f) + count_where(bar_ops(c, BarId::CpuLoad), f) + count_where(text_ops(c, ElementId::Ram), f) + count_where(bar_ops(c, BarId::Ram), f) + count_where(text_ops(c, ElementId::GpuTempLabel), f) + count_where(text_ops(c, ElementId::GpuTempValue), f) + count_where(text_ops(c, ElementId::GpuLoad), f) + count_where(bar_ops(c, BarId::GpuLoad), f) + count_where(text_ops(c, ElementId::GpuVram), f) + count_where(bar_ops(c, BarId::GpuVram), f) + count_where(text_ops(c, ElementId::Fps), f) + count_where(text_ops(c, ElementId::Frametime), f) + count_where(text_ops(c, ElementId::NvmeLabel), f) + count_where(text_ops(c, ElementId::NvmeValue), f) + count_where(text_ops(c, ElementId::Time), f) + count_where(text_ops(c, ElementId::Date), f) + count_where(graph_ops(c, has_samples), f) + count_where(gif_ops(c, loaded), f),
{
    let mut acc = divider_ops(c);
    lemma_count_where_concat(acc, text_ops(c, ElementId::CpuTempLabel), f);
    acc = acc + text_ops(c, ElementId::CpuTempLabel);
    lemma_count_where_concat(acc, text_ops(c, ElementId::CpuTempValue), f);
    acc = acc + text_ops(c, ElementId::CpuTempValue);
    lemma_count_where_concat(acc, text_ops(c, ElementId::CpuLoad), f);
    acc = acc + text_ops(c, ElementId::CpuLoad);
    lemma_count_where_concat(acc, bar_ops(c, BarId::CpuLoad), f);
    acc = acc + bar_ops(c, BarId::CpuLoad);
    lemma_count_where_concat(acc, text_ops(c, ElementId::Ram), f);
    acc = acc + text_ops(c, ElementId::Ram);
    lemma_count_where_concat(acc, bar_ops(c, BarId::Ram), f);
    acc = acc + bar_ops(c, BarId::Ram);
    lemma_count_where_concat(acc, text_ops(c, ElementId::GpuTempLabel), f);
    acc = acc + text_ops(c, ElementId::GpuTempLabel);
    lemma_count_where_concat(acc, text_ops(c, ElementId::GpuTempValue), f);
    acc = acc + text_ops(c, ElementId::GpuTempValue);
    lemma_count_where_concat(acc, text_ops(c, ElementId::GpuLoad), f);
    acc = acc + text_ops(c, ElementId::GpuLoad);
    lemma_count_where_concat(acc, bar_ops(c, BarId::GpuLoad), f);
    acc = acc + bar_ops(c, BarId::GpuLoad);
    lemma_count_where_concat(acc, text_ops(c, ElementId::GpuVram), f);
    acc = acc + text_ops(c, ElementId::GpuVram);
    lemma_count_where_concat(acc, bar_ops(c, BarId::GpuVram), f);
    acc = acc + bar_ops(c, BarId::GpuVram);
    lemma_count_where_concat(acc, text_ops(c, ElementId::Fps), f);
    acc = acc + text_ops(c, ElementId::Fps);
    lemma_count_where_concat(acc, text_ops(c, ElementId::Frametime), f);
    acc = acc + text_ops(c, ElementId::Frametime);
    lemma_count_where_concat(acc, text_ops(c, ElementId::NvmeLabel), f);
    acc = acc + text_ops(c, ElementId::NvmeLabel);
    lemma_count_where_concat(acc, text_ops(c, ElementId::NvmeValue), f);
    acc = acc + text_ops(c, ElementId::NvmeValue);
    lemma_count_where_concat(acc, text_ops(c, ElementId::Time), f);
    acc = acc + text_ops(c, ElementId::Time);
    lemma_count_where_concat(acc, text_ops(c, ElementId::Date), f);
    acc = acc + text_ops(c, ElementId::Date);
    lemma_count_where_concat(acc, graph_ops(c, has_samples), f);
    acc = acc + graph_ops(c, has_samples);
    assert(acc == plan_under_gif(c, has_samples));
    lemma_count_where_concat(acc, gif_ops(c, loaded), f);
}

/// A box on the frame: left, top, width, height.
pub type BBox = (i32, i32, u32, u32);

/// Height of a text box: the font size rounded up to whole pixels.
pub open spec fn text_height(font_size_centi: u32) -> u32 {
    (font_size_centi / 100 + if font_size_centi % 100 != 0 { 1u32 } else { 0u32 }) as u32
}

/// The box of a visible text element: its position, the width its text takes (given,
/// by element position in display order) and its font size rounded up.
pub open spec fn text_boxes(c: Config, widths: Seq<u32>, id: ElementId) -> Seq<(DragTarget, BBox)> {
    if elem_visible(c.elements, id) {
        let e = c.elements.entry(id)->0;
        seq![(DragTarget::Element(id), (e.x, e.y, widths[id.spec_index()], text_height(e.font_size_centi)))]
    } else {
        seq![]
    }
}

/// The box of a visible bar: the bar itself.
pub open spec fn bar_boxes(c: Config, id: BarId) -> Seq<(DragTarget, BBox)> {
    if bar_visible(c.bars, id) {
        let b = c.bars.entry(id)->0;
        seq![(DragTarget::Bar(id), (b.x, b.y, b.width, b.height))]
    } else {
        seq![]
    }
}

/// The GIF's box before its file's size is known: the configured size, 32 where it is 0.
pub open spec fn placeholder_gif_boxes(c: Config) -> Seq<(DragTarget, BBox)> {
    if c.gif.visible && c.gif.path is Some {
        seq![(DragTarget::Gif, (c.gif.x, c.gif.y, if c.gif.width > 0 { c.gif.width } else { 32u32 }, if c.gif.height > 0 { c.gif.height } else { 32u32 }))]
    } else {
        seq![]
    }
}

/// Boxes of every visible element for picking with the mouse, in this order: the text
/// elements in display order, the bars in display order, the frametime graph, the divider
/// (4 pixels wide, centred on its line) and the GIF.
pub open spec fn spec_bounding_boxes(c: Config, widths: Seq<u32>) -> Seq<(DragTarget, BBox)> {
    text_boxes(c, widths, ElementId::CpuTempLabel) + text_boxes(c, widths, ElementId::CpuTempValue)
        + text_boxes(c, widths, ElementId::CpuLoad) + text_boxes(c, widths, ElementId::Ram)
        + text_boxes(c, widths, ElementId::GpuTempLabel) + text_boxes(c, widths, ElementId::GpuTempValue)
        + text_boxes(c, widths, ElementId::GpuLoad) + text_boxes(c, widths, ElementId::GpuVram)
        + text_boxes(c, widths, ElementId::Fps) + text_boxes(c, widths, ElementId::Frametime)
        + text_boxes(c, widths, ElementId::NvmeLabel) + text_boxes(c, widths, ElementId::NvmeValue)
        + text_boxes(c, widths, ElementId::Time) + text_boxes(c, widths, ElementId::Date)
        + bar_boxes(c, BarId::CpuLoad) + bar_boxes(c, BarId::Ram) + bar_boxes(c, BarId::GpuLoad)
        + bar_boxes(c, BarId::GpuVram) + (if c.frametime_graph.visible {
        seq![(DragTarget::FrametimeGraph, (c.frametime_graph.x, c.frametime_graph.y, c.frametime_graph.width, c.frametime_graph.height))]
    } else {
        seq![]
    }) + (if c.divider.visible {
        seq![(DragTarget::Divider, ((c.divider.x - 2) as i32, c.divider.y_start, 4u32, (c.divider.y_end - c.divider.y_start) as u32))]
    } else {
        seq![]
    }) + placeholder_gif_boxes(c)
}

/// The frametime graph's box, when the graph is visible.
pub open spec fn graph_box_part(c: Config) -> Seq<(DragTarget, BBox)> {
    if c.frametime_graph.visible {
        seq![(DragTarget::FrametimeGraph, (c.frametime_graph.x, c.frametime_graph.y, c.frametime_graph.width, c.frametime_graph.height))]
    } else {
        seq![]
    }
}

/// The divider's box, when the divider is visible.
pub open spec fn divider_box_part(c: Config) -> Seq<(DragTarget, BBox)> {
    if c.divider.visible {
        seq![(DragTarget::Divider, ((c.divider.x - 2) as i32, c.divider.y_start, 4u32, (c.divider.y_end - c.divider.y_start) as u32))]
    } else {
        seq![]
    }
}

/// A count over the boxes is the sum of the counts over the boxes of each item.
proof fn lemma_boxes_count(c: Config, widths: Seq<u32>, f: spec_fn((DragTarget, BBox)) -> bool)
    ensures
        count_where(spec_bounding_boxes(c, widths), f) == count_where(text_boxes(c, widths, ElementId::CpuTempLabel), f) + count_where(text_boxes(c, widths, ElementId::CpuTempValue), f) + count_where(text_boxes(c, widths, ElementId::CpuLoad), f) + count_where(text_boxes(c, widths, ElementId::Ram), f) + count_where(text_boxes(c, widths, ElementId::GpuTempLabel), f) + count_where(text_boxes(c, widths, ElementId::GpuTempValue), f) + count_where(text_boxes(c, widths, ElementId::GpuLoad), f) + count_where(text_boxes(c, widths, ElementId::GpuVram), f) + count_where(text_boxes(c, widths, ElementId::Fps), f) + count_where(text_boxes(c, widths, ElementId::Frametime), f) + count_where(text_boxes(c, widths, ElementId::NvmeLabel), f) + count_where(text_boxes(c, widths, ElementId::NvmeValue), f) + count_where(text_boxes(c, widths, ElementId::Time), f) + count_where(text_boxes(c, widths, ElementId::Date), f) + count_where(bar_boxes(c, BarId::CpuLoad), f) + count_where(bar_boxes(c, BarId::Ram), f) + count_where(bar_boxes(c, BarId::GpuLoad), f) + count_where(bar_boxes(c, BarId::GpuVram), f) + count_where(graph_box_part(c), f) + count_where(divider_box_part(c), f) + count_where(placeholder_gif_boxes(c), f),
{
    let mut acc = text_boxes(c, widths, ElementId::CpuTempLabel);
    lemma_count_where_concat(acc, text_boxes(c, widths, ElementId::CpuTempValue), f);
    acc = acc + text_boxes(c, widths, ElementId::CpuTempValue);
    lemma_count_where_concat(acc, text_boxes(c, widths, ElementId::CpuLoad), f);
    acc = acc + text_boxes(c, widths, ElementId::CpuLoad);
    lemma_count_where_concat(acc, text_boxes(c, widths, ElementId::Ram), f);
    acc = acc + text_boxes(c, widths, ElementId::Ram);
    lemma_count_where_concat(acc, text_boxes(c, widths, ElementId::GpuTempLabel), f);
    acc = acc + text_boxes(c, widths, ElementId::GpuTempLabel);
    lemma_count_where_concat(acc, text_boxes(c, widths, ElementId::GpuTempValue), f);
    acc = acc + text_boxes(c, widths, ElementId::GpuTempValue);
    lemma_count_where_concat(acc, text_boxes(c, widths, ElementId::GpuLoad), f);
    acc = acc + text_boxes(c, widths, ElementId::GpuLoad);
    lemma_count_where_concat(acc, text_boxes(c, widths, ElementId::GpuVram), f);
    acc = acc + text_boxes(c, widths, ElementId::GpuVram);
    lemma_count_where_concat(acc, text_boxes(c, widths, ElementId::Fps), f);
    acc = acc + text_boxes(c, widths, ElementId::Fps);
    lemma_count_where_concat(acc, text_boxes(c, widths, ElementId::Frametime), f);
    acc = acc + text_boxes(c, widths, ElementId::Frametime);
    lemma_count_where_concat(acc, text_boxes(c, widths, ElementId::NvmeLabel), f);
    acc = acc + text_boxes(c, widths, ElementId::NvmeLabel);
    lemma_count_where_concat(acc, text_boxes(c, widths, ElementId::NvmeValue), f);
    acc = acc + text_boxes(c, widths, ElementId::NvmeValue);
    lemma_count_where_concat(acc, text_boxes(c, widths, ElementId::Time), f);
    acc = acc + text_boxes(c, widths, ElementId::Time);
    lemma_count_where_concat(acc, text_boxes(c, widths, ElementId::Date), f);
    acc = acc + text_boxes(c, widths, ElementId::Date);
    lemma_count_where_concat(acc, bar_boxes(c, BarId::CpuLoad), f);
    acc = acc + bar_boxes(c, BarId::CpuLoad);
    lemma_count_where_concat(acc, bar_boxes(c, BarId::Ram), f);
    acc = acc + bar_boxes(c, BarId::Ram);
    lemma_count_where_concat(acc, bar_boxes(c, BarId::GpuLoad), f);
    acc = acc + bar_boxes(c, BarId::GpuLoad);
    lemma_count_where_concat(acc, bar_boxes(c, BarId::GpuVram), f);
    acc = acc + bar_boxes(c, BarId::GpuVram);
    lemma_count_where_concat(acc, graph_box_part(c), f);
    acc = acc + graph_box_part(c);
    lemma_count_where_concat(acc, divider_box_part(c), f);
    acc = acc + divider_box_part(c);
    lemma_count_where_concat(acc, placeholder_gif_boxes(c), f);
    acc = acc + placeholder_gif_boxes(c);
    assert(acc == spec_bounding_boxes(c, widths));
}

/// The boxes of drag target `t`, whatever their place and size.
pub open spec fn boxes_of(t: DragTarget) -> spec_fn((DragTarget, BBox)) -> bool {
    |b: (DragTarget, BBox)| b.0 == t
}

/// The boxes equal to `b`.
pub open spec fn box_exactly(b: (DragTarget, BBox)) -> spec_fn((DragTarget, BBox)) -> bool {
    |o: (DragTarget, BBox)| o == b
}

/// The parts of the boxes that belong to items other than `t` hold no box that a query for
/// `t` can meet.
proof fn lemma_box_query_parts(c: Config, widths: Seq<u32>, t: DragTarget, f: spec_fn((DragTarget, BBox)) -> bool)
    requires
        forall|b: (DragTarget, BBox)| #[trigger] f(b) ==> b.0 == t,
    ensures
        forall|id: ElementId| DragTarget::Element(id) != t ==> #[trigger] count_where(text_boxes(c, widths, id), f) == 0,
        forall|id: BarId| DragTarget::Bar(id) != t ==> #[trigger] count_where(bar_boxes(c, id), f) == 0,
        t != DragTarget::FrametimeGraph ==> count_where(graph_box_part(c), f) == 0,
        t != DragTarget::Divider ==> count_where(divider_box_part(c), f) == 0,
        t != DragTarget::Gif ==> count_where(placeholder_gif_boxes(c), f) == 0,
{
    lemma_count_small(f);
    assert forall|id: ElementId| DragTarget::Element(id) != t implies #[trigger] count_where(text_boxes(c, widths, id), f) == 0 by {
        if elem_visible(c.elements, id) {
            assert(text_boxes(c, widths, id)[0].0 == DragTarget::Element(id));
            assert(!f(text_boxes(c, widths, id)[0]));
            assert(text_boxes(c, widths, id) == seq![text_boxes(c, widths, id)[0]]);
        }
    }
    assert forall|id: BarId| DragTarget::Bar(id) != t implies #[trigger] count_where(bar_boxes(c, id), f) == 0 by {
        if bar_visible(c.bars, id) {
            assert(bar_boxes(c, id)[0].0 == DragTarget::Bar(id));
            assert(!f(bar_boxes(c, id)[0]));
            assert(bar_boxes(c, id) == seq![bar_boxes(c, id)[0]]);
        }
    }
    if c.frametime_graph.visible && t != DragTarget::FrametimeGraph {
        assert(!f(graph_box_part(c)[0]));
        assert(graph_box_part(c) == seq![graph_box_part(c)[0]]);
    }
    if c.divider.visible && t != DragTarget::Divider {
        assert(!f(divider_box_part(c)[0]));
        assert(divider_box_part(c) == seq![divider_box_part(c)[0]]);
    }
    if c.gif.visible && c.gif.path is Some && t != DragTarget::Gif {
        assert(!f(placeholder_gif_boxes(c)[0]));
        assert(placeholder_gif_boxes(c) == seq![placeholder_gif_boxes(c)[0]]);
    }
}

/// Every visible text element has exactly one box, at its position, as wide as its text and
/// as high as its font size rounded up; a hidden or absent element has none.
pub proof fn lemma_boxes_of_visible_text(c: Config, widths: Seq<u32>, elem: ElementId)
    requires
        widths.len() == 14,
    ensures
        count_where(spec_bounding_boxes(c, widths), boxes_of(DragTarget::Element(elem))) == if (c.elements.entry(
            elem,
        ) matches Some(e) && e.visible) {
            1nat
        } else {
            0nat
        },
        (c.elements.entry(elem) matches Some(e) && e.visible) ==> count_where(
            spec_bounding_boxes(c, widths),
            box_exactly(
                (
                    DragTarget::Element(elem),
                    (
                        c.elements.entry(elem)->0.x,
                        c.elements.entry(elem)->0.y,
                        widths[elem.spec_index()],
                        text_height(c.elements.entry(elem)->0.font_size_centi),
                    ),
                ),
            ),
        ) == 1,
{
    let t = DragTarget::Element(elem);
    let f1 = boxes_of(t);
    lemma_text_box_query(c, widths, elem, f1);
    let e = c.elements.entry(elem)->0;
    let f2 = box_exactly((t, (e.x, e.y, widths[elem.spec_index()], text_height(e.font_size_centi))));
    lemma_text_box_query(c, widths, elem, f2);
}

proof fn lemma_text_box_query(c: Config, widths: Seq<u32>, elem: ElementId, f: spec_fn((DragTarget, BBox)) -> bool)
    requires
        forall|b: (DragTarget, BBox)| #[trigger] f(b) ==> b.0 == DragTarget::Element(elem),
    ensures
        count_where(spec_bounding_boxes(c, widths), f) == count_where(text_boxes(c, widths, elem), f),
        count_where(text_boxes(c, widths, elem), f) == if elem_visible(c.elements, elem) {
            if f(text_boxes(c, widths, elem)[0]) {
                1nat
            } else {
                0nat
            }
        } else {
            0nat
        },
{
    lemma_count_small(f);
    lemma_boxes_count(c, widths, f);
    lemma_box_query_parts(c, widths, DragTarget::Element(elem), f);
    let n = count_where(text_boxes(c, widths, elem), f);
    assert forall|id: ElementId| #[trigger] count_where(text_boxes(c, widths, id), f) == if id == elem { n } else { 0 } by {}
    if elem_visible(c.elements, elem) {
        assert(text_boxes(c, widths, elem) == seq![text_boxes(c, widths, elem)[0]]);
    }
}

/// Every visible bar has exactly one box, the bar itself; a hidden or absent bar has none.
pub proof fn lemma_boxes_of_visible_bar(c: Config, widths: Seq<u32>, bar: BarId)
    ensures
        count_where(spec_bounding_boxes(c, widths), boxes_of(DragTarget::Bar(bar))) == if (c.bars.entry(bar) matches Some(
            b,
        ) && b.visible) {
            1nat
        } else {
            0nat
        },
        (c.bars.entry(bar) matches Some(b) && b.visible) ==> count_where(
            spec_bounding_boxes(c, widths),
            box_exactly(
                (
                    DragTarget::Bar(bar),
                    (c.bars.entry(bar)->0.x, c.bars.entry(bar)->0.y, c.bars.entry(bar)->0.width, c.bars.entry(bar)->0.height),
                ),
            ),
        ) == 1,
{
    let t = DragTarget::Bar(bar);
    lemma_bar_box_query(c, widths, bar, boxes_of(t));
    let b = c.bars.entry(bar)->0;
    lemma_bar_box_query(c, widths, bar, box_exactly((t, (b.x, b.y, b.width, b.height))));
}

proof fn lemma_bar_box_query(c: Config, widths: Seq<u32>, bar: BarId, f: spec_fn((DragTarget, BBox)) -> bool)
    requires
        forall|b: (DragTarget, BBox)| #[trigger] f(b) ==> b.0 == DragTarget::Bar(bar),
    ensures
        count_where(spec_bounding_boxes(c, widths), f) == if bar_visible(c.bars, bar) {
            if f(bar_boxes(c, bar)[0]) {
                1nat
            } else {
                0nat
            }
        } else {
            0nat
        },
{
    lemma_count_small(f);
    lemma_boxes_count(c, widths, f);
    lemma_box_query_parts(c, widths, DragTarget::Bar(bar), f);
    let b = count_where(bar_boxes(c, bar), f);
    assert(count_where(bar_boxes(c, BarId::CpuLoad), f) == if bar == BarId::CpuLoad { b } else { 0 });
    assert(count_where(bar_boxes(c, BarId::Ram), f) == if bar == BarId::Ram { b } else { 0 });
    assert(count_where(bar_boxes(c, BarId::GpuLoad), f) == if bar == BarId::GpuLoad { b } else { 0 });
    assert(count_where(bar_boxes(c, BarId::GpuVram), f) == if bar == BarId::GpuVram { b } else { 0 });
    if bar_visible(c.bars, bar) {
        assert(bar_boxes(c, bar) == seq![bar_boxes(c, bar)[0]]);
    }
}

/// The frametime graph, the divider and the GIF each have exactly one box when they are
/// shown, and none when they are not: the graph's is the graph itself; the divider's is 4
/// pixels wide, centred on its line, from its top to its bottom; the GIF's, before its file's
/// size is known, has the configured size, 32 where that is 0.
pub proof fn lemma_boxes_of_graph_divider_gif(c: Config, widths: Seq<u32>)
    ensures
        count_where(spec_bounding_boxes(c, widths), boxes_of(DragTarget::FrametimeGraph)) == if c.frametime_graph.visible {
            1nat
        } else {
            0nat
        },
        c.frametime_graph.visible ==> count_where(
            spec_bounding_boxes(c, widths),
            box_exactly(
                (
                    DragTarget::FrametimeGraph,
                    (c.frametime_graph.x, c.frametime_graph.y, c.frametime_graph.width, c.frametime_graph.height),
                ),
            ),
        ) == 1,
        count_where(spec_bounding_boxes(c, widths), boxes_of(DragTarget::Divider)) == if c.divider.visible {
            1nat
        } else {
            0nat
        },
        c.divider.visible ==> count_where(
            spec_bounding_boxes(c, widths),
            box_exactly(
                (
                    DragTarget::Divider,
                    ((c.divider.x - 2) as i32, c.divider.y_start, 4u32, (c.divider.y_end - c.divider.y_start) as u32),
                ),
            ),
        ) == 1,
        count_where(spec_bounding_boxes(c, widths), boxes_of(DragTarget::Gif)) == if c.gif.visible && c.gif.path is Some {
            1nat
        } else {
            0nat
        },
        c.gif.visible && c.gif.path is Some ==> count_where(
            spec_bounding_boxes(c, widths),
            box_exactly(
                (
                    DragTarget::Gif,
                    (c.gif.x, c.gif.y, if c.gif.width > 0 { c.gif.width } else { 32u32 }, if c.gif.height > 0 {
                        c.gif.height
                    } else {
                        32u32
                    }),
                ),
            ),
        ) == 1,
{
    let g = c.frametime_graph;
    lemma_single_box_query(c, widths, DragTarget::FrametimeGraph, boxes_of(DragTarget::FrametimeGraph));
    lemma_single_box_query(c, widths, DragTarget::FrametimeGraph, box_exactly((DragTarget::FrametimeGraph, (g.x, g.y, g.width, g.height))));
    let d = c.divider;
    lemma_single_box_query(c, widths, DragTarget::Divider, boxes_of(DragTarget::Divider));
    lemma_single_box_query(
        c,
        widths,
        DragTarget::Divider,
        box_exactly((DragTarget::Divider, ((d.x - 2) as i32, d.y_start, 4u32, (d.y_end - d.y_start) as u32))),
    );
    lemma_single_box_query(c, widths, DragTarget::Gif, boxes_of(DragTarget::Gif));
    lemma_single_box_query(
        c,
        widths,
        DragTarget::Gif,
        box_exactly(
            (
                DragTarget::Gif,
                (c.gif.x, c.gif.y, if c.gif.width > 0 { c.gif.width } else { 32u32 }, if c.gif.height > 0 {
                    c.gif.height
                } else {
                    32u32
                }),
            ),
        ),
    );
}

proof fn lemma_single_box_query(c: Config, widths: Seq<u32>, t: DragTarget, f: spec_fn((DragTarget, BBox)) -> bool)
    requires
        t == DragTarget::FrametimeGraph || t == DragTarget::Divider || t == DragTarget::Gif,
        forall|b: (DragTarget, BBox)| #[trigger] f(b) ==> b.0 == t,
    ensures
        t == DragTarget::FrametimeGraph ==> count_where(spec_bounding_boxes(c, widths), f) == count_where(graph_box_part(c), f),
        t == DragTarget::Divider ==> count_where(spec_bounding_boxes(c, widths), f) == count_where(divider_box_part(c), f),
        t == DragTarget::Gif ==> count_where(spec_bounding_boxes(c, widths), f) == count_where(placeholder_gif_boxes(c), f),
        count_where(graph_box_part(c), f) == if c.frametime_graph.visible && f(graph_box_part(c)[0]) { 1nat } else { 0nat },
        count_where(divider_box_part(c), f) == if c.divider.visible && f(divider_box_part(c)[0]) { 1nat } else { 0nat },
        count_where(placeholder_gif_boxes(c), f) == if c.gif.visible && c.gif.path is Some && f(placeholder_gif_boxes(c)[0]) { 1nat } else { 0nat },
{
    lemma_count_small(f);
    lemma_boxes_count(c, widths, f);
    lemma_box_query_parts(c, widths, t, f);
    if c.frametime_graph.visible {
        assert(graph_box_part(c) == seq![graph_box_part(c)[0]]);
    }
    if c.divider.visible {
        assert(divider_box_part(c) == seq![divider_box_part(c)[0]]);
    }
    if c.gif.visible && c.gif.path is Some {
        assert(placeholder_gif_boxes(c) == seq![placeholder_gif_boxes(c)[0]]);
    }
}

/// Whether the divider's box can be computed without overflow: its line is at least two
/// pixels from the smallest `i32` and its length fits in an `i32`.
pub open spec fn divider_box_in_range(c: Config) -> bool {
    c.divider.visible ==> (c.divider.x >= i32::MIN + 2 && i32::MIN <= c.divider.y_end - c.divider.y_start
        <= i32::MAX)
}

fn push_text_box(boxes: &mut Vec<(DragTarget, BBox)>, c: &Config, widths: &[u32], id: ElementId)
    requires
        widths@.len() == 14,
    ensures
        final(boxes)@ == old(boxes)@ + text_boxes(*c, widths@, id),
{
    if let Some(e) = c.elements.get(id) {
        if e.visible {
            let h = e.font_size_centi / 100 + if e.font_size_centi % 100 != 0 { 1 } else { 0 };
            boxes.push((DragTarget::Element(id), (e.x, e.y, widths[id.index()], h)));
            return ;
        }
    }
    assert(boxes@ =~= old(boxes)@ + text_boxes(*c, widths@, id));
}

fn push_bar_box(boxes: &mut Vec<(DragTarget, BBox)>, c: &Config, id: BarId)
    ensures
        final(boxes)@ == old(boxes)@ + bar_boxes(*c, id),
{
    if let Some(b) = c.bars.get(id) {
        if b.visible {
            boxes.push((DragTarget::Bar(id), (b.x, b.y, b.width, b.height)));
            return ;
        }
    }
    assert(boxes@ =~= old(boxes)@ + bar_boxes(*c, id));
}

/// Compute bounding boxes for all visible elements, used for drag-and-drop hit testing.
/// `text_widths[i]` is the width in pixels of the text of the `i`-th element in display
/// order, as its font lays it out.
pub fn compute_bounding_boxes(config: &Config, text_widths: &[u32]) -> (r: Vec<(DragTarget, BBox)>)
    requires
        text_widths@.len() == 14,
        divider_box_in_range(*config),
    ensures
        r@ == spec_bounding_boxes(*config, text_widths@),
{
    let mut boxes: Vec<(DragTarget, BBox)> = Vec::new();
    push_text_box(&mut boxes, config, text_widths, ElementId::CpuTempLabel);
    assert(boxes@ =~= text_boxes(*config, text_widths@, ElementId::CpuTempLabel));
    push_text_box(&mut boxes, config, text_widths, ElementId::CpuTempValue);
    push_text_box(&mut boxes, config, text_widths, ElementId::CpuLoad);
    push_text_box(&mut boxes, config, text_widths, ElementId::Ram);
    push_text_box(&mut boxes, config, text_widths, ElementId::GpuTempLabel);
    push_text_box(&mut boxes, config, text_widths, ElementId::GpuTempValue);
    push_text_box(&mut boxes, config, text_widths, ElementId::GpuLoad);
    push_text_box(&mut boxes, config, text_widths, ElementId::GpuVram);
    push_text_box(&mut boxes, config, text_widths, ElementId::Fps);
    push_text_box(&mut boxes, config, text_widths, ElementId::Frametime);
    push_text_box(&mut boxes, config, text_widths, ElementId::NvmeLabel);
    push_text_box(&mut boxes, config, text_widths, ElementId::NvmeValue);
    push_text_box(&mut boxes, config, text_widths, ElementId::Time);
    push_text_box(&mut boxes, config, text_widths, ElementId::Date);
    // Bar elements.
    push_bar_box(&mut boxes, config, BarId::CpuLoad);
    push_bar_box(&mut boxes, config, BarId::Ram);
    push_bar_box(&mut boxes, config, BarId::GpuLoad);
    push_bar_box(&mut boxes, config, BarId::GpuVram);
    // Frametime graph.
    let ghost b0 = boxes@;
    if config.frametime_graph.visible {
        let g = &config.frametime_graph;
        boxes.push((DragTarget::FrametimeGraph, (g.x, g.y, g.width, g.height)));
    }
    assert(boxes@ =~= b0 + (if config.frametime_graph.visible {
        seq![(DragTarget::FrametimeGraph, (config.frametime_graph.x, config.frametime_graph.y, config.frametime_graph.width, config.frametime_graph.height))]
    } else {
        seq![]
    }));
    // Divider.
    let ghost b1 = boxes@;
    if config.divider.visible {
        let d = &config.divider;
        boxes.push((DragTarget::Divider, (d.x - 2, d.y_start, 4, (d.y_end - d.y_start) as u32)));
    }
    assert(boxes@ =~= b1 + (if config.divider.visible {
        seq![(DragTarget::Divider, ((config.divider.x - 2) as i32, config.divider.y_start, 4u32, (config.divider.y_end - config.divider.y_start) as u32))]
    } else {
        seq![]
    }));
    // GIF.
    let ghost b2 = boxes@;
    if config.gif.visible && config.gif.path.is_some() {
        let g = &config.gif;
        let w = if g.width > 0 { g.width } else { 32 };  // fallback if no GIF loaded yet
        let h = if g.height > 0 { g.height } else { 32 };
        boxes.push((DragTarget::Gif, (g.x, g.y, w, h)));
    }
    assert(boxes@ =~= b2 + placeholder_gif_boxes(*config));
    boxes
}

/// The boxes without the GIF's.
pub open spec fn without_gif(s: Seq<(DragTarget, BBox)>) -> Seq<(DragTarget, BBox)>
    decreases s.len(),
{
    if s.len() == 0 {
        seq![]
    } else {
        without_gif(s.drop_last()) + if s.last().0 == DragTarget::Gif {
            seq![]
        } else {
            seq![s.last()]
        }
    }
}

/// The boxes once the GIF's size is known: when the GIF is visible and has a file, its
/// placeholder box is replaced, at the end, by one of the size it is drawn at (32 by 32
/// while the file has not loaded).
pub open spec fn spec_with_gif_box(s: Seq<(DragTarget, BBox)>, c: Config, loaded: Option<(u32, u32)>) -> Seq<(DragTarget, BBox)> {
    if c.gif.visible && c.gif.path is Some {
        let (w, h) = match loaded {
            Some(original) => spec_gif_target_size(c.gif, original),
            None => (32u32, 32u32),
        };
        without_gif(s).push((DragTarget::Gif, (c.gif.x, c.gif.y, w, h)))
    } else {
        s
    }
}

/// Override GIF bbox with actual dimensions from loaded GIF.
pub fn with_gif_box(boxes: Vec<(DragTarget, BBox)>, config: &Config, loaded: Option<(u32, u32)>) -> (r: Vec<(DragTarget, BBox)>)
    ensures
        r@ == spec_with_gif_box(boxes@, *config, loaded),
{
    if !(config.gif.visible && config.gif.path.is_some()) {
        return boxes;
    }
    let mut kept: Vec<(DragTarget, BBox)> = Vec::new();
    let mut i: usize = 0;
    while i < boxes.len()
        invariant
            i <= boxes@.len(),
            kept@ == without_gif(boxes@.take(i as int)),
        decreases boxes@.len() - i,
    {
        assert(boxes@.take(i + 1).drop_last() =~= boxes@.take(i as int));
        let b = boxes[i];
        if b.0 != DragTarget::Gif {
            kept.push(b);
        }
        i = i + 1;
        assert(kept@ =~= without_gif(boxes@.take(i as int)));
    }
    assert(boxes@.take(boxes@.len() as int) =~= boxes@);
    let (w, h) = match loaded {
        Some(original) => gif_target_size(&config.gif, original),
        None => (32, 32),
    };
    kept.push((DragTarget::Gif, (config.gif.x, config.gif.y, w, h)));
    kept
}

proof fn lemma_without_gif_has_none(s: Seq<(DragTarget, BBox)>)
    ensures
        forall|i: int| 0 <= i < without_gif(s).len() ==> (#[trigger] without_gif(s)[i]).0 != DragTarget::Gif,
    decreases s.len(),
{
    if s.len() > 0 {
        lemma_without_gif_has_none(s.drop_last());
        let a = without_gif(s.drop_last());
        let b: Seq<(DragTarget, BBox)> = if s.last().0 == DragTarget::Gif { seq![] } else { seq![s.last()] };
        assert forall|i: int| 0 <= i < (a + b).len() implies (#[trigger] (a + b)[i]).0 != DragTarget::Gif by {
            if i < a.len() {
                assert((a + b)[i] == a[i]);
            } else {
                assert((a + b)[i] == b[i - a.len()]);
            }
        }
    }
}

/// Once the GIF's size is known there is exactly one GIF box, the last one, on top of
/// every other box.
pub proof fn lemma_one_gif_box_on_top(s: Seq<(DragTarget, BBox)>, c: Config, loaded: Option<(u32, u32)>)
    requires
        c.gif.visible,
        c.gif.path is Some,
    ensures
        spec_with_gif_box(s, c, loaded).last().0 == DragTarget::Gif,
        forall|i: int| 0 <= i < spec_with_gif_box(s, c, loaded).len() - 1
            ==> (#[trigger] spec_with_gif_box(s, c, loaded)[i]).0 != DragTarget::Gif,
{
    lemma_without_gif_has_none(s);
    let r = spec_with_gif_box(s, c, loaded);
    assert forall|i: int| 0 <= i < r.len() - 1 implies (#[trigger] r[i]).0 != DragTarget::Gif by {
        assert(r[i] == without_gif(s)[i]);
    }
}

/// A box dimension read as an `i32`, as `as i32` reads it: values above `i32::MAX` wrap
/// round to negative ones.
pub open spec fn wrap_i32(v: u32) -> int {
    if v <= i32::MAX {
        v as int
    } else {
        v - 0x1_0000_0000
    }
}

/// Whether a box holds a point. A box whose width or height wraps to zero or below holds
/// none.
pub open spec fn box_contains(b: BBox, x: i32, y: i32) -> bool {
    b.0 <= x < b.0 + wrap_i32(b.2) && b.1 <= y < b.1 + wrap_i32(b.3)
}

/// Whether an integer fits in an `i32`.
pub open spec fn fits_i32(v: int) -> bool {
    i32::MIN <= v <= i32::MAX
}

/// Whether testing the point against the box stays within `i32`: the box's right edge is
/// computed when the point is not left of the box, its bottom edge when the point lies
/// within its columns and not above it.
pub open spec fn test_in_range(b: BBox, x: i32, y: i32) -> bool {
    &&& x >= b.0 ==> fits_i32(b.0 + wrap_i32(b.2))
    &&& (x >= b.0 && x < b.0 + wrap_i32(b.2) && y >= b.1) ==> fits_i32(b.1 + wrap_i32(b.3))
}

/// Whether hit-testing the point stays within `i32`: every box that the test reaches, from
/// the last down to the first that holds the point, can be tested.
pub open spec fn hit_test_in_range(boxes: Seq<(DragTarget, BBox)>, x: i32, y: i32) -> bool {
    forall|k: int|
        0 <= k < boxes.len() && (forall|j: int| k < j < boxes.len() ==> !box_contains(#[trigger] boxes[j].1, x, y))
            ==> test_in_range(#[trigger] boxes[k].1, x, y)
}

/// The dimension as an `i32` reads it, widened.
fn wrapped(v: u32) -> (r: i64)
    ensures
        r == wrap_i32(v),
{
    if v <= 0x7fff_ffff {
        v as i64
    } else {
        v as i64 - 0x1_0000_0000
    }
}

/// Whether the box's edges that a test of the point computes fit in an `i32`.
fn box_test_fits(b: BBox, x: i32, y: i32) -> (r: bool)
    ensures
        r == test_in_range(b, x, y),
{
    let (bx, by, bw, bh) = b;
    let right = bx as i64 + wrapped(bw);
    let bottom = by as i64 + wrapped(bh);
    let right_ok = right >= i32::MIN as i64 && right <= i32::MAX as i64;
    let bottom_ok = bottom >= i32::MIN as i64 && bottom <= i32::MAX as i64;
    (x < bx || right_ok) && (!(x >= bx && (x as i64) < right && y >= by) || bottom_ok)
}

/// Whether hit-testing the point against the boxes stays within `i32`.
pub fn boxes_fit(img_x: i32, img_y: i32, boxes: &[(DragTarget, BBox)]) -> (r: bool)
    ensures
        r == hit_test_in_range(boxes@, img_x, img_y),
{
    let mut i = boxes.len();
    while i > 0
        invariant
            i <= boxes@.len(),
            forall|j: int| i <= j < boxes@.len() ==> !box_contains(#[trigger] boxes@[j].1, img_x, img_y),
            forall|j: int| i <= j < boxes@.len() ==> test_in_range(#[trigger] boxes@[j].1, img_x, img_y),
        decreases i,
    {
        i = i - 1;
        let b = boxes[i].1;
        assert(boxes@[i as int] == boxes[i as int]);
        if !box_test_fits(b, img_x, img_y) {
            return false;
        }
        let (bx, by, bw, bh) = b;
        if img_x >= bx && (img_x as i64) < bx as i64 + wrapped(bw) && img_y >= by && (img_y as i64) < by as i64
            + wrapped(bh) {
            assert forall|k: int|
                0 <= k < boxes@.len() && (forall|j: int|
                    k < j < boxes@.len() ==> !box_contains(#[trigger] boxes@[j].1, img_x, img_y))
                    implies test_in_range(#[trigger] boxes@[k].1, img_x, img_y) by {
                if k < i {
                    assert(box_contains(boxes@[i as int].1, img_x, img_y));
                }
            }
            return true;
        }
    }
    true
}

/// Hit test: find which element is at the given image coordinates. Boxes later in the list
/// are on top, so the last box that holds the point wins.
pub fn hit_test(img_x: i32, img_y: i32, bboxes: &[(DragTarget, BBox)]) -> (r: Option<DragTarget>)
    requires
        hit_test_in_range(bboxes@, img_x, img_y),
    ensures
        r is None == forall|k: int| 0 <= k < bboxes@.len() ==> !box_contains(#[trigger] bboxes@[k].1, img_x, img_y),
        r matches Some(t) ==> exists|k: int| {
            &&& 0 <= k < bboxes@.len()
            &&& #[trigger] bboxes@[k].0 == t
            &&& box_contains(bboxes@[k].1, img_x, img_y)
            &&& forall|j: int| k < j < bboxes@.len() ==> !box_contains(#[trigger] bboxes@[j].1, img_x, img_y)
        },
{
    let mut i = bboxes.len();
    while i > 0
        invariant
            i <= bboxes@.len(),
            hit_test_in_range(bboxes@, img_x, img_y),
            forall|j: int| i <= j < bboxes@.len() ==> !box_contains(#[trigger] bboxes@[j].1, img_x, img_y),
        decreases i,
    {
        i = i - 1;
        let (target, (bx, by, bw, bh)) = bboxes[i];
        assert(bboxes@[i as int] == bboxes[i as int]);
        assert(test_in_range(bboxes@[i as int].1, img_x, img_y));
        if img_x >= bx {
            let right: i32 = (bx as i64 + wrapped(bw)) as i32;
            if img_x < right && img_y >= by {
                let bottom: i32 = (by as i64 + wrapped(bh)) as i32;
                if img_y < bottom {
                    assert(box_contains(bboxes@[i as int].1, img_x, img_y));
                    return Some(target);
                }
            }
        }
    }
    None
}

/// `v` limited to `lo..=hi`.
pub open spec fn clamp(v: int, lo: int, hi: int) -> int {
    if v < lo {
        lo
    } else if v > hi {
        hi
    } else {
        v
    }
}

/// Where a dragged element lands: its start position moved by the pointer's offset, kept
/// on the panel.
pub fn drag_position(start: (i32, i32), dx: i32, dy: i32) -> (r: (i32, i32))
    requires
        i32::MIN <= start.0 + dx <= i32::MAX,
        i32::MIN <= start.1 + dy <= i32::MAX,
    ensures
        r.0 == clamp(start.0 + dx, 0, W - 1),
        r.1 == clamp(start.1 + dy, 0, H - 1),
{
    let x = start.0 + dx;
    let y = start.1 + dy;
    let max_x = (W - 1) as i32;
    let max_y = (H - 1) as i32;
    let nx = if x < 0 {
        0
    } else if x > max_x {
        max_x
    } else {
        x
    };
    let ny = if y < 0 {
        0
    } else if y > max_y {
        max_y
    } else {
        y
    };
    (nx, ny)
}


/// `ab_glyph::FontArc`, a parsed font carried through as an opaque value.
#[verifier::external_type_specification]
#[verifier::external_body]
pub struct ExFontArc(ab_glyph::FontArc);

/// `ab_glyph::InvalidFont`, the error of a font that does not parse.
#[verifier::external_type_specification]
#[verifier::external_body]
pub struct ExInvalidFont(ab_glyph::InvalidFont);

/// Whether `ab_glyph` accepts these bytes as a font (the first face of a TrueType or
/// OpenType file).
pub uninterp spec fn font_parses(data: Seq<u8>) -> bool;

/// Parses a font file's bytes with `ab_glyph::FontArc::try_from_vec`. The parse depends on
/// the bytes alone; the contract claims only that it succeeds exactly when `font_parses`
/// holds of them.
#[verifier::external_body]
fn font_arc_from_vec(data: Vec<u8>) -> (r: Result<ab_glyph::FontArc, ab_glyph::InvalidFont>)
    ensures
        r is Ok == font_parses(data@),
{
    ab_glyph::FontArc::try_from_vec(data)
}

/// Why a font file could not be used.
#[derive(Debug, Clone, Copy, PartialEq, Eq, Structural)]
pub enum FontError {
    /// The bytes are not a font that `ab_glyph` can read.
    Invalid,
}

/// Load a font from the bytes of its file.
pub fn load_font(data: Vec<u8>) -> (r: Result<ab_glyph::FontArc, FontError>)
    ensures
        r is Ok == font_parses(data@),
        r is Err ==> r matches Err(FontError::Invalid),
{
    match font_arc_from_vec(data) {
        Ok(f) => Ok(f),
        Err(_) => Err(FontError::Invalid),
    }
}

/// The JPEG file that `image::codecs::jpeg::JpegEncoder` writes for RGB pixels of the given
/// size at the given quality, or `None` where it refuses them.
pub uninterp spec fn jpeg_encoding(pixels: Seq<u8>, width: u32, height: u32, quality: u8) -> Option<Seq<u8>>;

/// Encodes RGB pixels, row by row, with `JpegEncoder::new_with_quality` and
/// `ImageEncoder::write_image` into a new buffer. The encoder panics unless the buffer holds
/// exactly `width * height * 3` bytes; the contract claims only that the outcome is a
/// function of the arguments, named `jpeg_encoding`.
#[verifier::external_body]
fn jpeg_encode(pixels: &[u8], width: u32, height: u32, quality: u8) -> (r: Result<Vec<u8>, image::ImageError>)
    requires
        pixels@.len() == width * height * 3,
    ensures
        r is Ok == jpeg_encoding(pixels@, width, height, quality) is Some,
        r matches Ok(v) ==> v@ == jpeg_encoding(pixels@, width, height, quality)->0,
{
    let mut buf = Vec::new();
    let encoder = image::codecs::jpeg::JpegEncoder::new_with_quality(&mut buf, quality);
    encoder.write_image(pixels, width, height, image::ExtendedColorType::Rgb8)?;
    Ok(buf)
}

/// Why a frame could not be encoded.
#[derive(Debug, Clone, Copy, PartialEq, Eq, Structural)]
pub enum EncodeError {
    /// The JPEG encoder refused the image.
    Jpeg,
}

/// Encode a frame's RGB pixels (a full panel, row by row) as JPEG with the given quality.
pub fn encode_jpeg(pixels: &[u8], quality: u8) -> (r: Result<Vec<u8>, EncodeError>)
    requires
        pixels@.len() == W * H * 3,
    ensures
        r is Ok == jpeg_encoding(pixels@, W, H, quality) is Some,
        r matches Ok(v) ==> v@ == jpeg_encoding(pixels@, W, H, quality)->0,
        r is Err ==> r == Err::<Vec<u8>, EncodeError>(EncodeError::Jpeg),
{
    match jpeg_encode(pixels, W, H, quality) {
        Ok(v) => Ok(v),
        Err(_) => Err(EncodeError::Jpeg),
    }
}


/// First position at or after `i` that holds a line feed (or the end).
pub open spec fn line_end(s: Seq<char>, i: int) -> int
    decreases s.len() - i,
{
    if i < 0 || i >= s.len() {
        s.len() as int
    } else if s[i] == '\n' {
        i
    } else {
        line_end(s, i + 1)
    }
}

/// The line that starts at `a`, as `str::lines` yields it: up to the next line feed, with a
/// carriage return before that line feed removed.
pub open spec fn line_at(s: Seq<char>, a: int) -> Seq<char> {
    let e = line_end(s, a);
    let t = s.subrange(a, e);
    if e < s.len() && t.len() > 0 && t.last() == '\r' {
        t.drop_last()
    } else {
        t
    }
}

/// The clock's time and date text.
pub struct LocalTime {
    pub time_str: String,
    pub date_str: String,
}

/// The time and date that `date +%H:%M:%S%n%m/%d` printed: its first line, else
/// `00:00:00`, and its second line, else `01/01`.
pub open spec fn spec_local_time(out: Seq<char>) -> (Seq<char>, Seq<char>) {
    let e0 = line_end(out, 0);
    (if out.len() > 0 { line_at(out, 0) } else { "00:00:00"@ }, if e0 + 1 < out.len() {
        line_at(out, e0 + 1)
    } else {
        "01/01"@
    })
}

proof fn lemma_line_end_bounds(s: Seq<char>, i: int)
    requires
        0 <= i <= s.len(),
    ensures
        i <= line_end(s, i) <= s.len(),
    decreases s.len() - i,
{
    if i < s.len() && s[i] != '\n' {
        lemma_line_end_bounds(s, i + 1);
    }
}

fn find_line_end(s: &[char], i: usize) -> (r: usize)
    requires
        i <= s@.len(),
    ensures
        r == line_end(s@, i as int),
{
    let mut k = i;
    while k < s.len() && s[k] != '\n'
        invariant
            i <= k <= s@.len(),
            line_end(s@, k as int) == line_end(s@, i as int),
        decreases s@.len() - k,
    {
        k = k + 1;
    }
    k
}

fn line_from(s: &[char], a: usize) -> (r: String)
    requires
        a <= s@.len(),
    ensures
        r@ == line_at(s@, a as int),
{
    proof {
        lemma_line_end_bounds(s@, a as int);
    }
    let e = find_line_end(s, a);
    let mut stop = e;
    if e < s.len() && e > a && s[e - 1] == '\r' {
        stop = e - 1;
    }
    let t = slice_chars(s, a, stop);
    assert(t@ =~= line_at(s@, a as int));
    string_of(t.as_slice())
}

/// The time and date from what the `date` command printed.
pub fn local_time_from_output(out: &str) -> (r: LocalTime)
    ensures
        (r.time_str@, r.date_str@) == spec_local_time(out@),
{
    let cs = chars_of(out);
    let s = cs.as_slice();
    let time_str = if s.len() > 0 {
        line_from(s, 0)
    } else {
        String::from_str("00:00:00")
    };
    proof {
        lemma_line_end_bounds(s@, 0);
    }
    let e0 = find_line_end(s, 0);
    let date_str = if e0 < s.len() && e0 + 1 < s.len() {
        line_from(s, e0 + 1)
    } else {
        String::from_str("01/01")
    };
    LocalTime { time_str, date_str }
}

/// The time and date shown when the clock cannot be read.
pub fn unknown_local_time() -> (r: LocalTime)
    ensures
        r.time_str@ == "??"@,
        r.date_str@ == "??"@,
{
    LocalTime { time_str: String::from_str("??"), date_str: String::from_str("??") }
}

} // verus!
