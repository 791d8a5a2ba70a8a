//! Display layout configuration: element identifiers, per-element settings and defaults.

use vstd::prelude::*;

use crate::text::opt_view;

verus! {

/// Element identifiers.
#[derive(Debug, Clone, Copy, PartialEq, Eq, Hash, Structural)]
pub enum ElementId {
    CpuTempLabel,
    CpuTempValue,
    CpuLoad,
    Ram,
    GpuTempLabel,
    GpuTempValue,
    GpuLoad,
    GpuVram,
    Fps,
    Frametime,
    NvmeLabel,
    NvmeValue,
    Time,
    Date,
}

/// Every element identifier, in display order.
pub open spec fn all_elements() -> Seq<ElementId> {
    seq![
        ElementId::CpuTempLabel,
        ElementId::CpuTempValue,
        ElementId::CpuLoad,
        ElementId::Ram,
        ElementId::GpuTempLabel,
        ElementId::GpuTempValue,
        ElementId::GpuLoad,
        ElementId::GpuVram,
        ElementId::Fps,
        ElementId::Frametime,
        ElementId::NvmeLabel,
        ElementId::NvmeValue,
        ElementId::Time,
        ElementId::Date,
    ]
}

impl ElementId {
    /// Position of the identifier in display order.
    pub open spec fn spec_index(self) -> int {
        match self {
            ElementId::CpuTempLabel => 0,
            ElementId::CpuTempValue => 1,
            ElementId::CpuLoad => 2,
            ElementId::Ram => 3,
            ElementId::GpuTempLabel => 4,
            ElementId::GpuTempValue => 5,
            ElementId::GpuLoad => 6,
            ElementId::GpuVram => 7,
            ElementId::Fps => 8,
            ElementId::Frametime => 9,
            ElementId::NvmeLabel => 10,
            ElementId::NvmeValue => 11,
            ElementId::Time => 12,
            ElementId::Date => 13,
        }
    }

    /// Position of the identifier in display order.
    pub fn index(&self) -> (r: usize)
        ensures
            r == self.spec_index(),
            r < 14,
    {
        match self {
            ElementId::CpuTempLabel => 0,
            ElementId::CpuTempValue => 1,
            ElementId::CpuLoad => 2,
            ElementId::Ram => 3,
            ElementId::GpuTempLabel => 4,
            ElementId::GpuTempValue => 5,
            ElementId::GpuLoad => 6,
            ElementId::GpuVram => 7,
            ElementId::Fps => 8,
            ElementId::Frametime => 9,
            ElementId::NvmeLabel => 10,
            ElementId::NvmeValue => 11,
            ElementId::Time => 12,
            ElementId::Date => 13,
        }
    }

    /// All element IDs in display order.
    pub fn all() -> (r: &'static [ElementId])
        ensures
            r@ == all_elements(),
    {
        let r: &'static [ElementId] = &[
            ElementId::CpuTempLabel,
            ElementId::CpuTempValue,
            ElementId::CpuLoad,
            ElementId::Ram,
            ElementId::GpuTempLabel,
            ElementId::GpuTempValue,
            ElementId::GpuLoad,
            ElementId::GpuVram,
            ElementId::Fps,
            ElementId::Frametime,
            ElementId::NvmeLabel,
            ElementId::NvmeValue,
            ElementId::Time,
            ElementId::Date,
        ];
        assert(r@ =~= all_elements());
        r
    }
}


/// Human-readable name of an element, as the settings panel shows it.
pub open spec fn element_display_name(id: ElementId) -> Seq<char> {
    match id {
        ElementId::CpuTempLabel => "CPU Temp Label"@,
        ElementId::CpuTempValue => "CPU Temp Value"@,
        ElementId::CpuLoad => "CPU Load"@,
        ElementId::Ram => "RAM Usage"@,
        ElementId::GpuTempLabel => "GPU Temp Label"@,
        ElementId::GpuTempValue => "GPU Temp Value"@,
        ElementId::GpuLoad => "GPU Load"@,
        ElementId::GpuVram => "VRAM Usage"@,
        ElementId::Fps => "FPS"@,
        ElementId::Frametime => "Frametime"@,
        ElementId::NvmeLabel => "NVMe Label"@,
        ElementId::NvmeValue => "NVMe Value"@,
        ElementId::Time => "Time"@,
        ElementId::Date => "Date"@,
    }
}

/// The elements whose value is a temperature, and which may therefore be
/// coloured by the reading.
pub open spec fn element_supports_dynamic_color(id: ElementId) -> bool {
    id == ElementId::CpuTempValue || id == ElementId::GpuTempValue || id == ElementId::NvmeValue
}

impl ElementId {
    /// Human-readable name for the GUI.
    pub fn display_name(&self) -> (r: &'static str)
        ensures
            r@ == element_display_name(*self),
    {
        match self {
            ElementId::CpuTempLabel => "CPU Temp Label",
            ElementId::CpuTempValue => "CPU Temp Value",
            ElementId::CpuLoad => "CPU Load",
            ElementId::Ram => "RAM Usage",
            ElementId::GpuTempLabel => "GPU Temp Label",
            ElementId::GpuTempValue => "GPU Temp Value",
            ElementId::GpuLoad => "GPU Load",
            ElementId::GpuVram => "VRAM Usage",
            ElementId::Fps => "FPS",
            ElementId::Frametime => "Frametime",
            ElementId::NvmeLabel => "NVMe Label",
            ElementId::NvmeValue => "NVMe Value",
            ElementId::Time => "Time",
            ElementId::Date => "Date",
        }
    }

    /// Whether this element supports dynamic color (temperature-based).
    pub fn supports_dynamic_color(&self) -> (r: bool)
        ensures
            r == element_supports_dynamic_color(*self),
    {
        match self {
            ElementId::CpuTempValue | ElementId::GpuTempValue | ElementId::NvmeValue => true,
            _ => false,
        }
    }
}

/// Bar identifiers.
#[derive(Debug, Clone, Copy, PartialEq, Eq, Hash, Structural)]
pub enum BarId {
    CpuLoad,
    Ram,
    GpuLoad,
    GpuVram,
}

/// Every bar identifier, in display order.
pub open spec fn all_bars() -> Seq<BarId> {
    seq![BarId::CpuLoad, BarId::Ram, BarId::GpuLoad, BarId::GpuVram]
}

/// Human-readable name of a bar, as the settings panel shows it.
pub open spec fn bar_display_name(id: BarId) -> Seq<char> {
    match id {
        BarId::CpuLoad => "CPU Load Bar"@,
        BarId::Ram => "RAM Bar"@,
        BarId::GpuLoad => "GPU Load Bar"@,
        BarId::GpuVram => "VRAM Bar"@,
    }
}

impl BarId {
    /// Position of the identifier in display order.
    pub open spec fn spec_index(self) -> int {
        match self {
            BarId::CpuLoad => 0,
            BarId::Ram => 1,
            BarId::GpuLoad => 2,
            BarId::GpuVram => 3,
        }
    }

    /// Position of the identifier in display order.
    pub fn index(&self) -> (r: usize)
        ensures
            r == self.spec_index(),
            r < 4,
    {
        match self {
            BarId::CpuLoad => 0,
            BarId::Ram => 1,
            BarId::GpuLoad => 2,
            BarId::GpuVram => 3,
        }
    }

    /// All bar IDs in display order.
    pub fn all() -> (r: &'static [BarId])
        ensures
            r@ == all_bars(),
    {
        let r: &'static [BarId] = &[BarId::CpuLoad, BarId::Ram, BarId::GpuLoad, BarId::GpuVram];
        assert(r@ =~= all_bars());
        r
    }

    /// Human-readable name for the GUI.
    pub fn display_name(&self) -> (r: &'static str)
        ensures
            r@ == bar_display_name(*self),
    {
        match self {
            BarId::CpuLoad => "CPU Load Bar",
            BarId::Ram => "RAM Bar",
            BarId::GpuLoad => "GPU Load Bar",
            BarId::GpuVram => "VRAM Bar",
        }
    }
}

/// Font weight.
#[derive(Debug, Clone, Copy, PartialEq, Eq, Structural)]
pub enum FontWeight {
    Bold,
    Regular,
}

impl Default for FontWeight {
    fn default() -> (r: Self)
        ensures
            r == FontWeight::Regular,
    {
        FontWeight::Regular
    }
}

/// Drag target (unified identifier for hit testing).
#[derive(Debug, Clone, Copy, PartialEq, Eq, Hash, Structural)]
pub enum DragTarget {
    Element(ElementId),
    Bar(BarId),
    Divider,
    Gif,
    FrametimeGraph,
}

/// Element configuration.
///
/// The font size is kept in hundredths of a pixel (`1600` is a 16 px font).
#[derive(Debug, Clone)]
pub struct ElementConfig {
    pub visible: bool,
    pub x: i32,
    pub y: i32,
    pub font_size_centi: u32,
    pub font_path: Option<String>,
    pub font_weight: FontWeight,
    pub color: [u8; 3],
    /// When true, temperature elements use dynamic color (green/yellow/red)
    /// instead of the fixed `color` field.
    pub use_dynamic_color: bool,
}

/// Font size given to an element whose settings do not name one, in hundredths of a pixel.
pub fn default_font_size() -> (r: u32)
    ensures
        r == 1600,
{
    1600
}

/// Bar configuration.
#[derive(Debug, Clone, Copy)]
pub struct BarConfig {
    pub visible: bool,
    pub x: i32,
    pub y: i32,
    pub width: u32,
    pub height: u32,
    pub fill_color: [u8; 3],
    pub bg_color: [u8; 3],
    pub border_color: [u8; 3],
}

/// Frametime graph configuration.
///
/// The Y-axis maximum is kept in hundredths of a millisecond; 0 asks for
/// auto-scaling from the data.
#[derive(Debug, Clone, Copy)]
pub struct FrametimeGraphConfig {
    pub visible: bool,
    pub x: i32,
    pub y: i32,
    pub width: u32,
    pub height: u32,
    pub line_color: [u8; 3],
    pub bg_color: [u8; 3],
    pub border_color: [u8; 3],
    pub max_ms_centi: u32,
}

/// Y-axis maximum given to a graph whose settings do not name one, in hundredths of a
/// millisecond: zero, so that the graph scales itself to its data.
pub fn default_graph_max_ms() -> (r: u32)
    ensures
        r == 0,
{
    0
}

/// Divider configuration.
#[derive(Debug, Clone, Copy)]
pub struct DividerConfig {
    pub visible: bool,
    pub x: i32,
    pub y_start: i32,
    pub y_end: i32,
    pub color: [u8; 3],
}

/// GIF configuration.
#[derive(Debug, Clone)]
pub struct GifConfig {
    pub visible: bool,
    /// Path to the GIF file. None = no GIF displayed.
    pub path: Option<String>,
    pub x: i32,
    pub y: i32,
    /// Display width. 0 = use original GIF width.
    pub width: u32,
    /// Display height. 0 = use original GIF height.
    pub height: u32,
}

/// GIF settings used when the configuration names none: hidden, no file, at the origin,
/// at the file's own size.
pub fn default_gif() -> (r: GifConfig)
    ensures
        !r.visible,
        r.path is None,
        r.x == 0,
        r.y == 0,
        r.width == 0,
        r.height == 0,
{
    GifConfig { visible: false, path: None, x: 0, y: 0, width: 0, height: 0 }
}

/// File that the FPS hook writes to, when the configuration names none.
pub fn default_fps_file_path() -> (r: String)
    ensures
        r@ == "/tmp/tt-rc-pro-fps"@,
{
    String::from_str("/tmp/tt-rc-pro-fps")
}

/// The frametime graph's default settings.
pub open spec fn spec_default_frametime_graph() -> FrametimeGraphConfig {
    FrametimeGraphConfig {
        visible: true,
        x: 248,
        y: 112,
        width: 222,
        height: 14,
        line_color: [0x44u8, 0x88u8, 0xffu8],
        bg_color: [0x1au8, 0x1au8, 0x1au8],
        border_color: [0x33u8, 0x33u8, 0x33u8],
        max_ms_centi: 0,
    }
}

/// Frametime graph settings used when the configuration names none.
pub fn default_frametime_graph() -> (r: FrametimeGraphConfig)
    ensures
        r == spec_default_frametime_graph(),
{
    FrametimeGraphConfig {
        visible: true,
        x: 248,
        y: 112,
        width: 222,
        height: 14,
        line_color: [0x44, 0x88, 0xff],
        bg_color: [0x1a, 0x1a, 0x1a],
        border_color: [0x33, 0x33, 0x33],
        max_ms_centi: 0,
    }
}


/// Default settings of each element: left panel CPU, right panel GPU, NVMe and clock.
pub open spec fn spec_default_element(id: ElementId) -> ElementConfig {
    let (visible, x, y, size, weight, color, dynamic): (bool, i32, i32, u32, FontWeight, [u8; 3], bool) =
        match id {
        ElementId::CpuTempLabel => (true, 8, 4, 1300, FontWeight::Regular, [0x55u8, 0x55u8, 0x55u8], false),
        ElementId::CpuTempValue => (true, 8, 20, 3000, FontWeight::Bold, [0x44u8, 0xffu8, 0x88u8], true),
        ElementId::CpuLoad => (true, 8, 58, 1600, FontWeight::Regular, [0xaau8, 0xaau8, 0xaau8], false),
        ElementId::Ram => (true, 8, 94, 1600, FontWeight::Regular, [0xaau8, 0xaau8, 0xaau8], false),
        ElementId::GpuTempLabel => (true, 248, 4, 1300, FontWeight::Regular, [0x55u8, 0x55u8, 0x55u8], false),
        ElementId::GpuTempValue => (true, 248, 20, 3000, FontWeight::Bold, [0x44u8, 0xffu8, 0x88u8], true),
        ElementId::GpuLoad => (false, 248, 58, 1600, FontWeight::Regular, [0xaau8, 0xaau8, 0xaau8], false),
        ElementId::GpuVram => (false, 248, 78, 1600, FontWeight::Regular, [0xaau8, 0xaau8, 0xaau8], false),
        ElementId::Fps => (false, 248, 96, 1300, FontWeight::Regular, [0x88u8, 0xccu8, 0x88u8], false),
        ElementId::Frametime => (false, 340, 96, 1300, FontWeight::Regular, [0x88u8, 0x88u8, 0xccu8], false),
        ElementId::NvmeLabel => (true, 248, 62, 1300, FontWeight::Regular, [0x55u8, 0x55u8, 0x55u8], false),
        ElementId::NvmeValue => (true, 248, 78, 1600, FontWeight::Regular, [0x44u8, 0xffu8, 0x88u8], true),
        ElementId::Time => (true, 248, 100, 1600, FontWeight::Regular, [0x44u8, 0x44u8, 0x44u8], false),
        ElementId::Date => (true, 352, 104, 1300, FontWeight::Regular, [0x33u8, 0x33u8, 0x33u8], false),
    };
    ElementConfig {
        visible: visible,
        x: x,
        y: y,
        font_size_centi: size,
        font_path: None,
        font_weight: weight,
        color: color,
        use_dynamic_color: dynamic,
    }
}

/// Builds an element's settings from its parts, with no custom font.
fn element(
    visible: bool,
    x: i32,
    y: i32,
    font_size_centi: u32,
    font_weight: FontWeight,
    color: [u8; 3],
    use_dynamic_color: bool,
) -> (r: ElementConfig)
    ensures
        r == (ElementConfig {
            visible: visible,
            x: x,
            y: y,
            font_size_centi: font_size_centi,
            font_path: None,
            font_weight: font_weight,
            color: color,
            use_dynamic_color: use_dynamic_color,
        }),
{
    ElementConfig {
        visible,
        x,
        y,
        font_size_centi,
        font_path: None,
        font_weight,
        color,
        use_dynamic_color,
    }
}

/// Default settings of one element.
pub fn default_element(id: ElementId) -> (r: ElementConfig)
    ensures
        r == spec_default_element(id),
{
    match id {
        ElementId::CpuTempLabel => element(true, 8, 4, 1300, FontWeight::Regular, [0x55, 0x55, 0x55], false),
        ElementId::CpuTempValue => element(true, 8, 20, 3000, FontWeight::Bold, [0x44, 0xff, 0x88], true),
        ElementId::CpuLoad => element(true, 8, 58, 1600, FontWeight::Regular, [0xaa, 0xaa, 0xaa], false),
        ElementId::Ram => element(true, 8, 94, 1600, FontWeight::Regular, [0xaa, 0xaa, 0xaa], false),
        ElementId::GpuTempLabel => element(true, 248, 4, 1300, FontWeight::Regular, [0x55, 0x55, 0x55], false),
        ElementId::GpuTempValue => element(true, 248, 20, 3000, FontWeight::Bold, [0x44, 0xff, 0x88], true),
        ElementId::GpuLoad => element(false, 248, 58, 1600, FontWeight::Regular, [0xaa, 0xaa, 0xaa], false),
        ElementId::GpuVram => element(false, 248, 78, 1600, FontWeight::Regular, [0xaa, 0xaa, 0xaa], false),
        ElementId::Fps => element(false, 248, 96, 1300, FontWeight::Regular, [0x88, 0xcc, 0x88], false),
        ElementId::Frametime => element(false, 340, 96, 1300, FontWeight::Regular, [0x88, 0x88, 0xcc], false),
        ElementId::NvmeLabel => element(true, 248, 62, 1300, FontWeight::Regular, [0x55, 0x55, 0x55], false),
        ElementId::NvmeValue => element(true, 248, 78, 1600, FontWeight::Regular, [0x44, 0xff, 0x88], true),
        ElementId::Time => element(true, 248, 100, 1600, FontWeight::Regular, [0x44, 0x44, 0x44], false),
        ElementId::Date => element(true, 352, 104, 1300, FontWeight::Regular, [0x33, 0x33, 0x33], false),
    }
}

/// The settings of each element, present or absent.
#[derive(Debug, Clone)]
pub struct ElementTable {
    slots: [Option<ElementConfig>; 14],
}

impl ElementTable {
    /// The settings held for `id`, if any.
    pub closed spec fn entry(&self, id: ElementId) -> Option<ElementConfig> {
        self.slots@[id.spec_index()]
    }

    /// A table with no element in it.
    pub fn new() -> (r: ElementTable)
        ensures
            forall|id: ElementId| #[trigger] r.entry(id) is None,
    {
        ElementTable {
            slots: [None, None, None, None, None, None, None, None, None, None, None, None, None, None],
        }
    }

    /// The settings held for `id`, if any.
    pub fn get(&self, id: ElementId) -> (r: Option<&ElementConfig>)
        ensures
            r is Some == self.entry(id) is Some,
            r matches Some(e) ==> *e == self.entry(id)->0,
    {
        let i = id.index();
        match &self.slots[i] {
            Some(e) => Some(e),
            None => None,
        }
    }

    /// Whether settings are held for `id`.
    pub fn contains_key(&self, id: ElementId) -> (r: bool)
        ensures
            r == self.entry(id) is Some,
    {
        let i = id.index();
        self.slots[i].is_some()
    }

    /// Stores `cfg` as the settings of `id`, in place of any held before.
    pub fn insert(&mut self, id: ElementId, cfg: ElementConfig)
        ensures
            final(self).entry(id) == Some(cfg),
            forall|k: ElementId| k != id ==> #[trigger] final(self).entry(k) == old(self).entry(k),
    {
        let i = id.index();
        self.slots[i] = Some(cfg);
    }

    /// The slot that holds the settings of `id`, to read or change in place.
    pub fn slot_mut(&mut self, id: ElementId) -> (r: &mut Option<ElementConfig>)
        ensures
            *r == old(self).entry(id),
            final(self).entry(id) == *final(r),
            forall|k: ElementId| k != id ==> #[trigger] final(self).entry(k) == old(self).entry(k),
    {
        let i = id.index();
        &mut self.slots[i]
    }
}

/// Default settings of every element.
pub fn default_elements() -> (r: ElementTable)
    ensures
        forall|id: ElementId| #[trigger] r.entry(id) == Some(spec_default_element(id)),
{
    let r = ElementTable {
        slots: [
            Some(default_element(ElementId::CpuTempLabel)),
            Some(default_element(ElementId::CpuTempValue)),
            Some(default_element(ElementId::CpuLoad)),
            Some(default_element(ElementId::Ram)),
            Some(default_element(ElementId::GpuTempLabel)),
            Some(default_element(ElementId::GpuTempValue)),
            Some(default_element(ElementId::GpuLoad)),
            Some(default_element(ElementId::GpuVram)),
            Some(default_element(ElementId::Fps)),
            Some(default_element(ElementId::Frametime)),
            Some(default_element(ElementId::NvmeLabel)),
            Some(default_element(ElementId::NvmeValue)),
            Some(default_element(ElementId::Time)),
            Some(default_element(ElementId::Date)),
        ],
    };
    assert forall|id: ElementId| #[trigger] r.entry(id) == Some(spec_default_element(id)) by {
        match id {
            ElementId::CpuTempLabel => {},
            ElementId::CpuTempValue => {},
            ElementId::CpuLoad => {},
            ElementId::Ram => {},
            ElementId::GpuTempLabel => {},
            ElementId::GpuTempValue => {},
            ElementId::GpuLoad => {},
            ElementId::GpuVram => {},
            ElementId::Fps => {},
            ElementId::Frametime => {},
            ElementId::NvmeLabel => {},
            ElementId::NvmeValue => {},
            ElementId::Time => {},
            ElementId::Date => {},
        }
    }
    r
}


/// Default settings of each progress bar.
pub open spec fn spec_default_bar(id: BarId) -> BarConfig {
    let (visible, x, y, fill): (bool, i32, i32, [u8; 3]) = match id {
        BarId::CpuLoad => (true, 8, 78, [0x33u8, 0x77u8, 0xffu8]),
        BarId::Ram => (true, 8, 112, [0x88u8, 0x44u8, 0xccu8]),
        BarId::GpuLoad => (false, 248, 74, [0xffu8, 0x88u8, 0x33u8]),
        BarId::GpuVram => (false, 248, 94, [0xccu8, 0x44u8, 0x88u8]),
    };
    BarConfig {
        visible: visible,
        x: x,
        y: y,
        width: 222,
        height: 10,
        fill_color: fill,
        bg_color: [0x1au8, 0x1au8, 0x1au8],
        border_color: [0x33u8, 0x33u8, 0x33u8],
    }
}

/// Default settings of one bar.
pub fn default_bar(id: BarId) -> (r: BarConfig)
    ensures
        r == spec_default_bar(id),
{
    let (visible, x, y, fill_color): (bool, i32, i32, [u8; 3]) = match id {
        BarId::CpuLoad => (true, 8, 78, [0x33, 0x77, 0xff]),
        BarId::Ram => (true, 8, 112, [0x88, 0x44, 0xcc]),
        BarId::GpuLoad => (false, 248, 74, [0xff, 0x88, 0x33]),
        BarId::GpuVram => (false, 248, 94, [0xcc, 0x44, 0x88]),
    };
    BarConfig {
        visible,
        x,
        y,
        width: 222,
        height: 10,
        fill_color,
        bg_color: [0x1a, 0x1a, 0x1a],
        border_color: [0x33, 0x33, 0x33],
    }
}

/// The settings of each bar, present or absent.
#[derive(Debug, Clone)]
pub struct BarTable {
    slots: [Option<BarConfig>; 4],
}

impl BarTable {
    /// The settings held for `id`, if any.
    pub closed spec fn entry(&self, id: BarId) -> Option<BarConfig> {
        self.slots@[id.spec_index()]
    }

    /// A table with no bar in it.
    pub fn new() -> (r: BarTable)
        ensures
            forall|id: BarId| #[trigger] r.entry(id) is None,
    {
        BarTable { slots: [None, None, None, None] }
    }

    /// The settings held for `id`, if any.
    pub fn get(&self, id: BarId) -> (r: Option<&BarConfig>)
        ensures
            r is Some == self.entry(id) is Some,
            r matches Some(b) ==> *b == self.entry(id)->0,
    {
        let i = id.index();
        match &self.slots[i] {
            Some(b) => Some(b),
            None => None,
        }
    }

    /// Whether settings are held for `id`.
    pub fn contains_key(&self, id: BarId) -> (r: bool)
        ensures
            r == self.entry(id) is Some,
    {
        let i = id.index();
        self.slots[i].is_some()
    }

    /// Stores `cfg` as the settings of `id`, in place of any held before.
    pub fn insert(&mut self, id: BarId, cfg: BarConfig)
        ensures
            final(self).entry(id) == Some(cfg),
            forall|k: BarId| k != id ==> #[trigger] final(self).entry(k) == old(self).entry(k),
    {
        let i = id.index();
        self.slots[i] = Some(cfg);
    }

    /// The slot that holds the settings of `id`, to read or change in place.
    pub fn slot_mut(&mut self, id: BarId) -> (r: &mut Option<BarConfig>)
        ensures
            *r == old(self).entry(id),
            final(self).entry(id) == *final(r),
            forall|k: BarId| k != id ==> #[trigger] final(self).entry(k) == old(self).entry(k),
    {
        let i = id.index();
        &mut self.slots[i]
    }
}

/// Default settings of every bar.
pub fn default_bars() -> (r: BarTable)
    ensures
        forall|id: BarId| #[trigger] r.entry(id) == Some(spec_default_bar(id)),
{
    let r = BarTable {
        slots: [
            Some(default_bar(BarId::CpuLoad)),
            Some(default_bar(BarId::Ram)),
            Some(default_bar(BarId::GpuLoad)),
            Some(default_bar(BarId::GpuVram)),
        ],
    };
    assert forall|id: BarId| #[trigger] r.entry(id) == Some(spec_default_bar(id)) by {
        match id {
            BarId::CpuLoad => {},
            BarId::Ram => {},
            BarId::GpuLoad => {},
            BarId::GpuVram => {},
        }
    }
    r
}

/// The divider's default settings.
pub open spec fn spec_default_divider() -> DividerConfig {
    DividerConfig { visible: true, x: 238, y_start: 6, y_end: 122, color: [0x2au8, 0x2au8, 0x2au8] }
}

/// Divider settings used when the configuration names none.
pub fn default_divider() -> (r: DividerConfig)
    ensures
        r == spec_default_divider(),
{
    DividerConfig { visible: true, x: 238, y_start: 6, y_end: 122, color: [0x2a, 0x2a, 0x2a] }
}

/// Bold font used by elements that name no font of their own.
pub fn default_font_bold() -> (r: String)
    ensures
        r@ == "/usr/share/fonts/dejavu/DejaVuSans-Bold.ttf"@,
{
    String::from_str("/usr/share/fonts/dejavu/DejaVuSans-Bold.ttf")
}

/// Regular font used by elements that name no font of their own.
pub fn default_font_regular() -> (r: String)
    ensures
        r@ == "/usr/share/fonts/dejavu/DejaVuSans.ttf"@,
{
    String::from_str("/usr/share/fonts/dejavu/DejaVuSans.ttf")
}

/// Seconds between two frames, when the configuration names none.
pub fn default_interval() -> (r: u64)
    ensures
        r == 2,
{
    2
}

/// JPEG quality of the frames sent to the panel, when the configuration names none.
pub fn default_jpeg_quality() -> (r: u8)
    ensures
        r == 92,
{
    92
}

/// Background colour of the frame, when the configuration names none.
pub fn default_bg_color() -> (r: [u8; 3])
    ensures
        r == [0u8, 0u8, 0u8],
{
    [0, 0, 0]
}

/// Top-level configuration.
#[derive(Debug, Clone)]
pub struct Config {
    pub elements: ElementTable,
    pub bars: BarTable,
    pub divider: DividerConfig,
    pub gif: GifConfig,
    pub background_color: [u8; 3],
    pub default_font_bold: String,
    pub default_font_regular: String,
    pub update_interval_secs: u64,
    pub jpeg_quality: u8,
    /// Path to the external file providing FPS/frametime data.
    pub fps_file_path: String,
    /// Frametime line graph settings.
    pub frametime_graph: FrametimeGraphConfig,
}

/// Which sensor groups are actually needed for rendering.
/// Derived from element/bar visibility so that hidden sensors are not read from disk.
#[derive(Debug, Clone, Copy)]
pub struct SensorNeeds {
    pub cpu_temp: bool,
    pub cpu_load: bool,
    pub ram: bool,
    pub gpu_temp: bool,
    pub gpu_load: bool,
    pub vram: bool,
    pub nvme_temp: bool,
    pub fps: bool,
}

impl SensorNeeds {
    /// All needs enabled (used when config is unavailable).
    pub fn all() -> (r: Self)
        ensures
            r.cpu_temp && r.cpu_load && r.ram && r.gpu_temp && r.gpu_load && r.vram && r.nvme_temp
                && r.fps,
    {
        SensorNeeds {
            cpu_temp: true,
            cpu_load: true,
            ram: true,
            gpu_temp: true,
            gpu_load: true,
            vram: true,
            nvme_temp: true,
            fps: true,
        }
    }

    /// No needs enabled.
    pub fn none() -> (r: Self)
        ensures
            !r.cpu_temp && !r.cpu_load && !r.ram && !r.gpu_temp && !r.gpu_load && !r.vram
                && !r.nvme_temp && !r.fps,
    {
        SensorNeeds {
            cpu_temp: false,
            cpu_load: false,
            ram: false,
            gpu_temp: false,
            gpu_load: false,
            vram: false,
            nvme_temp: false,
            fps: false,
        }
    }
}

/// Whether the table holds settings for element `id` and they make it visible.
pub open spec fn elem_visible(elements: ElementTable, id: ElementId) -> bool {
    elements.entry(id) matches Some(e) && e.visible
}

/// Whether the table holds settings for bar `id` and they make it visible.
pub open spec fn bar_visible(bars: BarTable, id: BarId) -> bool {
    bars.entry(id) matches Some(b) && b.visible
}

/// Whether any element or bar with the given key is visible.
pub fn is_visible_elem(elements: &ElementTable, id: ElementId) -> (r: bool)
    ensures
        r == elem_visible(*elements, id),
{
    match elements.get(id) {
        Some(e) => e.visible,
        None => false,
    }
}

/// Whether the bar with the given key is present and visible.
pub fn is_visible_bar(bars: &BarTable, id: BarId) -> (r: bool)
    ensures
        r == bar_visible(*bars, id),
{
    match bars.get(id) {
        Some(b) => b.visible,
        None => false,
    }
}

impl Default for Config {
    fn default() -> (r: Self)
        ensures
            forall|id: ElementId| #[trigger] r.elements.entry(id) == Some(spec_default_element(id)),
            forall|id: BarId| #[trigger] r.bars.entry(id) == Some(spec_default_bar(id)),
            r.divider == spec_default_divider(),
            !r.gif.visible && r.gif.path is None && r.gif.x == 0 && r.gif.y == 0
                && r.gif.width == 0 && r.gif.height == 0,
            r.background_color == [0u8, 0u8, 0u8],
            r.default_font_bold@ == "/usr/share/fonts/dejavu/DejaVuSans-Bold.ttf"@,
            r.default_font_regular@ == "/usr/share/fonts/dejavu/DejaVuSans.ttf"@,
            r.update_interval_secs == 2,
            r.jpeg_quality == 92,
            r.fps_file_path@ == "/tmp/tt-rc-pro-fps"@,
            r.frametime_graph == spec_default_frametime_graph(),
    {
        Config {
            elements: default_elements(),
            bars: default_bars(),
            divider: default_divider(),
            gif: default_gif(),
            background_color: default_bg_color(),
            default_font_bold: default_font_bold(),
            default_font_regular: default_font_regular(),
            update_interval_secs: default_interval(),
            jpeg_quality: default_jpeg_quality(),
            fps_file_path: default_fps_file_path(),
            frametime_graph: default_frametime_graph(),
        }
    }
}

/// The sensor groups that the visible parts of a configuration read.
pub open spec fn spec_sensor_needs(c: Config) -> SensorNeeds {
    SensorNeeds {
        cpu_temp: elem_visible(c.elements, ElementId::CpuTempValue),
        cpu_load: elem_visible(c.elements, ElementId::CpuLoad) || bar_visible(c.bars, BarId::CpuLoad),
        ram: elem_visible(c.elements, ElementId::Ram) || bar_visible(c.bars, BarId::Ram),
        gpu_temp: elem_visible(c.elements, ElementId::GpuTempValue),
        gpu_load: elem_visible(c.elements, ElementId::GpuLoad) || bar_visible(c.bars, BarId::GpuLoad),
        vram: elem_visible(c.elements, ElementId::GpuVram) || bar_visible(c.bars, BarId::GpuVram),
        nvme_temp: elem_visible(c.elements, ElementId::NvmeValue),
        fps: elem_visible(c.elements, ElementId::Fps) || elem_visible(c.elements, ElementId::Frametime)
            || c.frametime_graph.visible,
    }
}

/// The font file an element is drawn with: its own, else the default of its weight.
pub open spec fn spec_font_path(c: Config, elem: ElementConfig) -> Seq<char> {
    match elem.font_path {
        Some(p) => p@,
        None => match elem.font_weight {
            FontWeight::Bold => c.default_font_bold@,
            FontWeight::Regular => c.default_font_regular@,
        },
    }
}

/// Whether the configuration holds a position for the drag target.
pub open spec fn has_target(c: Config, t: DragTarget) -> bool {
    match t {
        DragTarget::Element(id) => c.elements.entry(id) is Some,
        DragTarget::Bar(id) => c.bars.entry(id) is Some,
        _ => true,
    }
}

/// Position of a drag target; (0, 0) for an element or bar that has no settings.
pub open spec fn spec_get_pos(c: Config, t: DragTarget) -> (i32, i32) {
    match t {
        DragTarget::Element(id) => match c.elements.entry(id) {
            Some(e) => (e.x, e.y),
            None => (0, 0),
        },
        DragTarget::Bar(id) => match c.bars.entry(id) {
            Some(b) => (b.x, b.y),
            None => (0, 0),
        },
        DragTarget::Divider => (c.divider.x, c.divider.y_start),
        DragTarget::Gif => (c.gif.x, c.gif.y),
        DragTarget::FrametimeGraph => (c.frametime_graph.x, c.frametime_graph.y),
    }
}

/// The fields of a configuration that no position change touches.
pub open spec fn same_settings(a: Config, b: Config) -> bool {
    &&& a.background_color == b.background_color
    &&& a.default_font_bold == b.default_font_bold
    &&& a.default_font_regular == b.default_font_regular
    &&& a.update_interval_secs == b.update_interval_secs
    &&& a.jpeg_quality == b.jpeg_quality
    &&& a.fps_file_path == b.fps_file_path
}

/// `b` is `a` with the drag target `t` moved to (x, y), where `a` has it, and nothing else changed.
pub open spec fn moved_to(a: Config, b: Config, t: DragTarget, x: i32, y: i32) -> bool {
    &&& same_settings(a, b)
    &&& forall|k: ElementId| DragTarget::Element(k) != t ==> #[trigger] b.elements.entry(k) == a.elements.entry(k)
    &&& forall|k: BarId| DragTarget::Bar(k) != t ==> #[trigger] b.bars.entry(k) == a.bars.entry(k)
    &&& match t {
        DragTarget::Element(id) => b.elements.entry(id) == match a.elements.entry(id) {
            Some(e) => Some(ElementConfig { x: x, y: y, ..e }),
            None => None,
        },
        DragTarget::Bar(id) => b.bars.entry(id) == match a.bars.entry(id) {
            Some(e) => Some(BarConfig { x: x, y: y, ..e }),
            None => None,
        },
        _ => true,
    }
    &&& b.divider == if t == DragTarget::Divider {
        DividerConfig { x: x, y_start: y, ..a.divider }
    } else {
        a.divider
    }
    &&& b.gif == if t == DragTarget::Gif { GifConfig { x: x, y: y, ..a.gif } } else { a.gif }
    &&& b.frametime_graph == if t == DragTarget::FrametimeGraph {
        FrametimeGraphConfig { x: x, y: y, ..a.frametime_graph }
    } else {
        a.frametime_graph
    }
}

/// Each reading is needed exactly when something that shows it is visible: a temperature
/// by its value text; the CPU load, RAM, GPU load and VRAM by their text or by their bar,
/// either one alone sufficing; FPS by its text, by the frame-time text or by the graph.
pub proof fn lemma_sensor_needs_follow_visibility(c: Config)
    ensures
        spec_sensor_needs(c).cpu_temp == (c.elements.entry(ElementId::CpuTempValue) matches Some(e) && e.visible),
        spec_sensor_needs(c).gpu_temp == (c.elements.entry(ElementId::GpuTempValue) matches Some(e) && e.visible),
        spec_sensor_needs(c).nvme_temp == (c.elements.entry(ElementId::NvmeValue) matches Some(e) && e.visible),
        spec_sensor_needs(c).cpu_load == ((c.elements.entry(ElementId::CpuLoad) matches Some(e) && e.visible)
            || (c.bars.entry(BarId::CpuLoad) matches Some(b) && b.visible)),
        spec_sensor_needs(c).ram == ((c.elements.entry(ElementId::Ram) matches Some(e) && e.visible) || (
        c.bars.entry(BarId::Ram) matches Some(b) && b.visible)),
        spec_sensor_needs(c).gpu_load == ((c.elements.entry(ElementId::GpuLoad) matches Some(e) && e.visible)
            || (c.bars.entry(BarId::GpuLoad) matches Some(b) && b.visible)),
        spec_sensor_needs(c).vram == ((c.elements.entry(ElementId::GpuVram) matches Some(e) && e.visible)
            || (c.bars.entry(BarId::GpuVram) matches Some(b) && b.visible)),
        spec_sensor_needs(c).fps == ((c.elements.entry(ElementId::Fps) matches Some(e) && e.visible)
            || (c.elements.entry(ElementId::Frametime) matches Some(e) && e.visible) || c.frametime_graph.visible),
{
}

/// A visible bar needs its reading whatever the elements show: hiding every text element
/// leaves the needs of the visible bars in place.
pub proof fn lemma_visible_bar_needs_reading(c: Config, id: BarId)
    requires
        c.bars.entry(id) matches Some(b) && b.visible,
    ensures
        match id {
            BarId::CpuLoad => spec_sensor_needs(c).cpu_load,
            BarId::Ram => spec_sensor_needs(c).ram,
            BarId::GpuLoad => spec_sensor_needs(c).gpu_load,
            BarId::GpuVram => spec_sensor_needs(c).vram,
        },
{
}

impl Config {
    /// Compute which sensor groups are needed based on element/bar visibility.
    pub fn sensor_needs(&self) -> (r: SensorNeeds)
        ensures
            r == spec_sensor_needs(*self),
    {
        SensorNeeds {
            cpu_temp: is_visible_elem(&self.elements, ElementId::CpuTempValue),
            cpu_load: is_visible_elem(&self.elements, ElementId::CpuLoad) || is_visible_bar(
                &self.bars,
                BarId::CpuLoad,
            ),
            ram: is_visible_elem(&self.elements, ElementId::Ram) || is_visible_bar(&self.bars, BarId::Ram),
            gpu_temp: is_visible_elem(&self.elements, ElementId::GpuTempValue),
            gpu_load: is_visible_elem(&self.elements, ElementId::GpuLoad) || is_visible_bar(
                &self.bars,
                BarId::GpuLoad,
            ),
            vram: is_visible_elem(&self.elements, ElementId::GpuVram) || is_visible_bar(
                &self.bars,
                BarId::GpuVram,
            ),
            nvme_temp: is_visible_elem(&self.elements, ElementId::NvmeValue),
            fps: is_visible_elem(&self.elements, ElementId::Fps) || is_visible_elem(
                &self.elements,
                ElementId::Frametime,
            ) || self.frametime_graph.visible,
        }
    }

    /// Resolve the effective font path for an element.
    /// If the element has a custom font_path, use it; otherwise use the default
    /// bold or regular font based on font_weight.
    pub fn resolve_font_path<'a>(&'a self, elem: &'a ElementConfig) -> (r: &'a str)
        ensures
            r@ == spec_font_path(*self, *elem),
    {
        match &elem.font_path {
            Some(p) => p.as_str(),
            None => match elem.font_weight {
                FontWeight::Bold => self.default_font_bold.as_str(),
                FontWeight::Regular => self.default_font_regular.as_str(),
            },
        }
    }

    /// Get or insert an element config, returning a mutable reference.
    pub fn element_mut(&mut self, id: ElementId) -> (r: &mut ElementConfig)
        ensures
            *r == match old(self).elements.entry(id) {
                Some(e) => e,
                None => spec_default_element(id),
            },
            final(self).elements.entry(id) == Some(*final(r)),
            forall|k: ElementId| k != id ==> #[trigger] final(self).elements.entry(k) == old(self).elements.entry(k),
            final(self).bars == old(self).bars,
            final(self).divider == old(self).divider,
            final(self).gif == old(self).gif,
            final(self).frametime_graph == old(self).frametime_graph,
            same_settings(*old(self), *final(self)),
    {
        let slot = self.elements.slot_mut(id);
        if slot.is_some() {
            slot.as_mut().unwrap()
        } else {
            slot.insert(default_element(id))
        }
    }

    /// Get or insert a bar config, returning a mutable reference.
    pub fn bar_mut(&mut self, id: BarId) -> (r: &mut BarConfig)
        ensures
            *r == match old(self).bars.entry(id) {
                Some(b) => b,
                None => spec_default_bar(id),
            },
            final(self).bars.entry(id) == Some(*final(r)),
            forall|k: BarId| k != id ==> #[trigger] final(self).bars.entry(k) == old(self).bars.entry(k),
            final(self).elements == old(self).elements,
            final(self).divider == old(self).divider,
            final(self).gif == old(self).gif,
            final(self).frametime_graph == old(self).frametime_graph,
            same_settings(*old(self), *final(self)),
    {
        let slot = self.bars.slot_mut(id);
        if slot.is_some() {
            slot.as_mut().unwrap()
        } else {
            slot.insert(default_bar(id))
        }
    }

    /// Get position of a drag target.
    pub fn get_pos(&self, target: &DragTarget) -> (r: (i32, i32))
        ensures
            r == spec_get_pos(*self, *target),
    {
        match target {
            DragTarget::Element(id) => match self.elements.get(*id) {
                Some(e) => (e.x, e.y),
                None => (0, 0),
            },
            DragTarget::Bar(id) => match self.bars.get(*id) {
                Some(b) => (b.x, b.y),
                None => (0, 0),
            },
            DragTarget::Divider => (self.divider.x, self.divider.y_start),
            DragTarget::Gif => (self.gif.x, self.gif.y),
            DragTarget::FrametimeGraph => (self.frametime_graph.x, self.frametime_graph.y),
        }
    }

    /// Set position of a drag target.
    pub fn set_pos(&mut self, target: &DragTarget, x: i32, y: i32)
        ensures
            moved_to(*old(self), *final(self), *target, x, y),
    {
        match target {
            DragTarget::Element(id) => {
                let slot = self.elements.slot_mut(*id);
                if let Some(e) = slot {
                    e.x = x;
                    e.y = y;
                }
            },
            DragTarget::Bar(id) => {
                let slot = self.bars.slot_mut(*id);
                if let Some(b) = slot {
                    b.x = x;
                    b.y = y;
                }
            },
            DragTarget::Divider => {
                self.divider.x = x;
                self.divider.y_start = y;
            },
            DragTarget::Gif => {
                self.gif.x = x;
                self.gif.y = y;
            },
            DragTarget::FrametimeGraph => {
                self.frametime_graph.x = x;
                self.frametime_graph.y = y;
            },
        }
    }
}

/// Moving a drag target puts it where it was moved to, when the configuration has it,
/// and leaves it where it was otherwise; every other target keeps its position.
pub proof fn lemma_set_pos_then_get_pos(a: Config, b: Config, t: DragTarget, other: DragTarget, x: i32, y: i32)
    requires
        moved_to(a, b, t, x, y),
    ensures
        has_target(a, t) ==> spec_get_pos(b, t) == (x, y),
        !has_target(a, t) ==> spec_get_pos(b, t) == spec_get_pos(a, t),
        other != t ==> spec_get_pos(b, other) == spec_get_pos(a, other),
        has_target(b, t) == has_target(a, t),
{
    match other {
        DragTarget::Element(k) => { assert(b.elements.entry(k) == a.elements.entry(k) || other == t); },
        DragTarget::Bar(k) => { assert(b.bars.entry(k) == a.bars.entry(k) || other == t); },
        _ => {},
    }
}

/// Whether the configured GIF file differs from the one loaded last, so that it must be
/// loaded again.
pub fn gif_path_changed(last: &Option<String>, current: &Option<String>) -> (r: bool)
    ensures
        r == (opt_view(*last) != opt_view(*current)),
{
    match (last, current) {
        (Some(a), Some(b)) => !a.eq(b),
        (None, None) => false,
        _ => true,
    }
}

/// Whether a configuration read back from the file takes the place of the running one:
/// only when the file changed since it was last looked at and it loaded.
pub open spec fn reload_applies(file_changed: bool, loaded: Option<Config>) -> bool {
    file_changed && loaded is Some
}

/// Hot reload: when the file changed and loaded, the loaded configuration replaces the
/// running one, and the GIF is loaded again only when its path changed; when the file did
/// not change, or failed to load, the running configuration stays. Returns whether the
/// GIF must be loaded again.
pub fn apply_reload(
    config: &mut Config,
    last_gif_path: &mut Option<String>,
    file_changed: bool,
    loaded: Option<Config>,
) -> (reload_gif: bool)
    ensures
        reload_applies(file_changed, loaded) ==> {
            &&& *final(config) == loaded.unwrap()
            &&& reload_gif == (opt_view(*old(last_gif_path)) != opt_view(loaded.unwrap().gif.path))
            &&& opt_view(*final(last_gif_path)) == opt_view(loaded.unwrap().gif.path)
        },
        !reload_applies(file_changed, loaded) ==> {
            &&& *final(config) == *old(config)
            &&& *final(last_gif_path) == *old(last_gif_path)
            &&& !reload_gif
        },
{
    if !file_changed {
        return false;
    }
    match loaded {
        Some(c) => {
            let changed = gif_path_changed(last_gif_path, &c.gif.path);
            if changed {
                *last_gif_path = match &c.gif.path {
                    Some(p) => Some(p.clone()),
                    None => None,
                };
            }
            *config = c;
            changed
        },
        None => false,
    }
}

} // verus!