//! Physical and logical monitors, the rotation codec, and the per-monitor
//! part of an apply request.
use vstd::prelude::*;

use crate::modes::{is_mode_of, ModeInfo, Modes};
use crate::text::{int_text, milli_text, push_char, push_int, push_milli, same_text};
use crate::ApplyError;
use vstd::string::StringExecFns;

verus! {

/// Position and size of an output, in pixels.
#[derive(Debug, Clone, Copy, PartialEq, Eq, Structural)]
pub struct OutputRect {
    pub x: i32,
    pub y: i32,
    pub width: i32,
    pub height: i32,
}

/// One output as the compositor lists it. The scale is in thousandths.
#[derive(Debug, Clone)]
pub struct OutputInfo {
    pub name: String,
    pub make: String,
    pub model: String,
    pub serial: String,
    pub active: bool,
    pub primary: bool,
    pub scale: Option<u32>,
    pub transform: Option<String>,
    pub rect: OutputRect,
    pub modes: Vec<ModeInfo>,
    pub current_mode: Option<ModeInfo>,
}

/// The identity of a monitor: the connector it is plugged into, and its
/// vendor, product and serial number.
#[derive(Debug, Clone)]
pub struct MonitorDescription {
    pub connector: String,
    pub vendor: String,
    pub product: String,
    pub serial: String,
}

/// A physical monitor: its identity, its modes and its properties.
#[derive(Debug, Clone)]
pub struct Monitor {
    pub description: MonitorDescription,
    pub modes: Vec<Modes>,
    pub properties: MonitorProperties,
}

/// An active placement of one physical monitor. The scale is in thousandths.
#[derive(Debug, Clone)]
pub struct LogicalMonitor {
    pub x_pos: i32,
    pub y_pos: i32,
    pub scale: u32,
    pub transform: u32,
    pub primary: bool,
    pub monitors: Vec<MonitorDescription>,
    pub properties: LogicalMonitorProperties,
}

/// Properties advertised for a physical monitor.
#[derive(Debug, Clone, PartialEq, Eq)]
pub struct MonitorProperties {
    pub width: Option<i32>,
    pub height: Option<i32>,
    pub underscanning: Option<bool>,
    pub builtin: Option<bool>,
    pub max_size: Option<(i32, i32)>,
    pub name: Option<String>,
}

/// The eight rotations and flips of an output.
#[derive(Debug, Clone, Copy, PartialEq, Eq, Structural)]
pub enum MonitorTransform {
    Normal,
    Left,
    Down,
    Right,
    Flipped,
    FlippedLeft,
    FlippedDown,
    FlippedRight,
}

/// Properties of a logical monitor (none are used).
#[derive(Debug, Clone, PartialEq, Eq, Structural)]
pub struct LogicalMonitorProperties {
    pub dummy: Option<i32>,
    pub dummy2: Option<bool>,
}

/// The monitor an apply request entry is about: its connector and the
/// identifier of the mode asked for.
#[derive(Debug, Clone)]
pub struct MonitorSelection {
    pub connector: String,
    pub mode: String,
    pub properties: MonitorProperties,
}

/// One entry of an apply request: where to place the monitor of
/// `monitors[0]`, and how. The scale is in thousandths.
#[derive(Debug, Clone)]
pub struct MonitorApply {
    pub x_pos: i32,
    pub y_pos: i32,
    pub scale: u32,
    pub transform: u32,
    pub primary: bool,
    pub monitors: Vec<MonitorSelection>,
}

// ---------------------------------------------------------------------------
// Rotation codec
// ---------------------------------------------------------------------------

/// The numeric code of a transform.
pub open spec fn transform_code(t: MonitorTransform) -> u32 {
    match t {
        MonitorTransform::Normal => 0,
        MonitorTransform::Left => 1,
        MonitorTransform::Down => 2,
        MonitorTransform::Right => 3,
        MonitorTransform::Flipped => 4,
        MonitorTransform::FlippedLeft => 5,
        MonitorTransform::FlippedDown => 6,
        MonitorTransform::FlippedRight => 7,
    }
}

/// The transform with numeric code `n`, if there is one.
pub open spec fn transform_of_code(n: u32) -> Option<MonitorTransform> {
    if n == 0 {
        Some(MonitorTransform::Normal)
    } else if n == 1 {
        Some(MonitorTransform::Left)
    } else if n == 2 {
        Some(MonitorTransform::Down)
    } else if n == 3 {
        Some(MonitorTransform::Right)
    } else if n == 4 {
        Some(MonitorTransform::Flipped)
    } else if n == 5 {
        Some(MonitorTransform::FlippedLeft)
    } else if n == 6 {
        Some(MonitorTransform::FlippedDown)
    } else if n == 7 {
        Some(MonitorTransform::FlippedRight)
    } else {
        None
    }
}

/// The compositor's word for a transform. The compositor counts rotations
/// clockwise and the numeric codes count them counter-clockwise, so `Left`
/// (a quarter turn counter-clockwise) is the compositor's `270`.
pub open spec fn sway_name(t: MonitorTransform) -> Seq<char> {
    match t {
        MonitorTransform::Normal => "normal"@,
        MonitorTransform::Right => "90"@,
        MonitorTransform::Down => "180"@,
        MonitorTransform::Left => "270"@,
        MonitorTransform::Flipped => "flipped"@,
        MonitorTransform::FlippedRight => "flipped-90"@,
        MonitorTransform::FlippedDown => "flipped-180"@,
        MonitorTransform::FlippedLeft => "flipped-270"@,
    }
}

/// The transform that the compositor's word `s` names; anything else,
/// and no word at all, is `Normal`.
pub open spec fn transform_of_sway(s: Option<Seq<char>>) -> MonitorTransform {
    match s {
        Some(w) => if w == "90"@ {
            MonitorTransform::Right
        } else if w == "180"@ {
            MonitorTransform::Down
        } else if w == "270"@ {
            MonitorTransform::Left
        } else if w == "flipped"@ {
            MonitorTransform::Flipped
        } else if w == "flipped-90"@ {
            MonitorTransform::FlippedRight
        } else if w == "flipped-180"@ {
            MonitorTransform::FlippedDown
        } else if w == "flipped-270"@ {
            MonitorTransform::FlippedLeft
        } else {
            MonitorTransform::Normal
        },
        None => MonitorTransform::Normal,
    }
}

/// The transform a request's code stands for, `Normal` for an unknown code.
pub open spec fn transform_or_normal(n: u32) -> MonitorTransform {
    match transform_of_code(n) {
        Some(t) => t,
        None => MonitorTransform::Normal,
    }
}

impl MonitorTransform {
    pub fn from_u32(transform: u32) -> (r: Option<MonitorTransform>)
        ensures
            r == transform_of_code(transform),
    {
        match transform {
            0 => Some(MonitorTransform::Normal),
            1 => Some(MonitorTransform::Left),
            2 => Some(MonitorTransform::Down),
            3 => Some(MonitorTransform::Right),
            4 => Some(MonitorTransform::Flipped),
            5 => Some(MonitorTransform::FlippedLeft),
            6 => Some(MonitorTransform::FlippedDown),
            7 => Some(MonitorTransform::FlippedRight),
            _ => None,
        }
    }

    pub fn to_u32(self) -> (r: u32)
        ensures
            r == transform_code(self),
    {
        match self {
            MonitorTransform::Normal => 0,
            MonitorTransform::Left => 1,
            MonitorTransform::Down => 2,
            MonitorTransform::Right => 3,
            MonitorTransform::Flipped => 4,
            MonitorTransform::FlippedLeft => 5,
            MonitorTransform::FlippedDown => 6,
            MonitorTransform::FlippedRight => 7,
        }
    }

    pub fn from_sway(sway_transform: &Option<String>) -> (r: MonitorTransform)
        ensures
            r == transform_of_sway(
                match sway_transform {
                    Some(s) => Some(s@),
                    None => None,
                },
            ),
    {
        match sway_transform {
            Some(s) => {
                let w = s.as_str();
                if same_text(w, "90") {
                    MonitorTransform::Right
                } else if same_text(w, "180") {
                    MonitorTransform::Down
                } else if same_text(w, "270") {
                    MonitorTransform::Left
                } else if same_text(w, "flipped") {
                    MonitorTransform::Flipped
                } else if same_text(w, "flipped-90") {
                    MonitorTransform::FlippedRight
                } else if same_text(w, "flipped-180") {
                    MonitorTransform::FlippedDown
                } else if same_text(w, "flipped-270") {
                    MonitorTransform::FlippedLeft
                } else {
                    MonitorTransform::Normal
                }
            },
            None => MonitorTransform::Normal,
        }
    }

    pub fn to_sway(self) -> (r: &'static str)
        ensures
            r@ == sway_name(self),
    {
        match self {
            MonitorTransform::Normal => "normal",
            MonitorTransform::Right => "90",
            MonitorTransform::Down => "180",
            MonitorTransform::Left => "270",
            MonitorTransform::Flipped => "flipped",
            MonitorTransform::FlippedRight => "flipped-90",
            MonitorTransform::FlippedDown => "flipped-180",
            MonitorTransform::FlippedLeft => "flipped-270",
        }
    }
}

/// Every transform survives the trip to its code and back, and to the
/// compositor's word and back.
pub proof fn lemma_transform_round_trip(t: MonitorTransform)
    ensures
        transform_of_code(transform_code(t)) == Some(t),
        transform_of_sway(Some(sway_name(t))) == t,
{
    reveal_strlit("normal");
    reveal_strlit("90");
    reveal_strlit("180");
    reveal_strlit("270");
    reveal_strlit("flipped");
    reveal_strlit("flipped-90");
    reveal_strlit("flipped-180");
    reveal_strlit("flipped-270");
    let names = seq![
        "90"@,
        "180"@,
        "270"@,
        "flipped"@,
        "flipped-90"@,
        "flipped-180"@,
        "flipped-270"@,
        "normal"@,
    ];
    assert forall|i: int, j: int| 0 <= i < j < 8 implies names[i] != names[j] by {
        if names[i].len() == names[j].len() {
            if names[i].len() == 3 {
                assert(names[i][0] != names[j][0]);
            } else if names[i].len() == 11 {
                assert(names[i][8] != names[j][8]);
            } else {
                assert(names[i][0] != names[j][0]);
            }
        }
    }
    assert(names[0] != names[7] && names[1] != names[7] && names[2] != names[7]);
    assert(names[3] != names[7] && names[4] != names[7] && names[5] != names[7]);
    assert(names[6] != names[7] && names[0] != names[1] && names[1] != names[2]);
    assert(names[0] != names[2] && names[3] != names[4] && names[4] != names[5]);
    assert(names[5] != names[6] && names[4] != names[6] && names[3] != names[6]);
    assert(names[3] != names[5] && names[0] != names[3] && names[1] != names[3]);
    assert(names[2] != names[3] && names[0] != names[4] && names[1] != names[4]);
    assert(names[2] != names[4] && names[0] != names[5] && names[1] != names[5]);
    assert(names[2] != names[5] && names[0] != names[6] && names[1] != names[6]);
    assert(names[2] != names[6]);
}

/// Every code that names a transform survives the trip to the transform and back.
pub proof fn lemma_code_round_trip(n: u32)
    requires
        n < 8,
    ensures
        transform_of_code(n) is Some,
        transform_code(transform_of_code(n)->Some_0) == n,
{
}

} // verus!

verus! {

// ---------------------------------------------------------------------------
// Monitors
// ---------------------------------------------------------------------------

/// The characters of a monitor's identity.
pub open spec fn description_view(d: MonitorDescription) -> (Seq<char>, Seq<char>, Seq<char>, Seq<char>) {
    (d.connector@, d.vendor@, d.product@, d.serial@)
}

/// The identity of the monitor behind `output`.
pub open spec fn output_description(output: OutputInfo) -> (Seq<char>, Seq<char>, Seq<char>, Seq<char>) {
    (output.name@, output.make@, output.model@, output.serial@)
}

/// The human-facing name of a monitor: vendor, product and serial, separated by spaces.
pub open spec fn display_name(vendor: Seq<char>, product: Seq<char>, serial: Seq<char>) -> Seq<char> {
    vendor + seq![' '] + product + seq![' '] + serial
}

/// The display name of the monitor with identity `d`.
pub open spec fn description_name(d: MonitorDescription) -> Seq<char> {
    display_name(d.vendor@, d.product@, d.serial@)
}

/// The first mode in `modes` whose identifier is `id`.
pub open spec fn find_mode(modes: Seq<Modes>, id: Seq<char>) -> Option<Modes>
    decreases modes.len(),
{
    if modes.len() == 0 {
        None
    } else if modes[0].id@ == id {
        Some(modes[0])
    } else {
        find_mode(modes.drop_first(), id)
    }
}

/// The first mode in `modes` that is marked current.
pub open spec fn current_mode_of(modes: Seq<Modes>) -> Option<Modes>
    decreases modes.len(),
{
    if modes.len() == 0 {
        None
    } else if modes[0].properties.current == Some(true) {
        Some(modes[0])
    } else {
        current_mode_of(modes.drop_first())
    }
}

/// The identifier of the current mode, or `Unknown` when no mode is current.
pub open spec fn current_mode_text(modes: Seq<Modes>) -> Seq<char> {
    match current_mode_of(modes) {
        Some(m) => m.id@,
        None => "Unknown"@,
    }
}

/// The first monitor in `monitors` plugged into `connector`.
pub open spec fn find_monitor(monitors: Seq<Monitor>, connector: Seq<char>) -> Option<Monitor>
    decreases monitors.len(),
{
    if monitors.len() == 0 {
        None
    } else if monitors[0].description.connector@ == connector {
        Some(monitors[0])
    } else {
        find_monitor(monitors.drop_first(), connector)
    }
}

/// The first logical monitor in `logical` placing the monitor plugged into `connector`.
pub open spec fn find_logical_monitor(logical: Seq<LogicalMonitor>, connector: Seq<char>) -> Option<LogicalMonitor>
    decreases logical.len(),
{
    if logical.len() == 0 {
        None
    } else if logical[0].monitors@.len() > 0 && logical[0].monitors@[0].connector@ == connector {
        Some(logical[0])
    } else {
        find_logical_monitor(logical.drop_first(), connector)
    }
}

/// `p` are the properties that `MonitorProperties::new` gives `output`.
pub open spec fn is_properties_of(output: OutputInfo, p: MonitorProperties) -> bool {
    &&& p.width == Some(output.rect.width)
    &&& p.height == Some(output.rect.height)
    &&& p.underscanning is None
    &&& p.builtin == Some(output.name@.len() >= 3 && output.name@.subrange(0, 3) == "eDP"@)
    &&& p.max_size is None
    &&& p.name is Some
    &&& p.name->Some_0@ == display_name(output.make@, output.model@, output.serial@)
}

/// `m` is the monitor that `Monitor::new` builds for `output`.
pub open spec fn is_monitor_of(output: OutputInfo, m: Monitor) -> bool {
    &&& description_view(m.description) == output_description(output)
    &&& m.modes@.len() == output.modes@.len()
    &&& forall|i: int| 0 <= i < output.modes@.len() ==> is_mode_of(output, output.modes@[i], #[trigger] m.modes@[i])
    &&& is_properties_of(output, m.properties)
}

/// `l` is the logical monitor that `LogicalMonitor::new` builds for `output`.
pub open spec fn is_logical_monitor_of(output: OutputInfo, l: LogicalMonitor) -> bool {
    &&& l.x_pos == output.rect.x
    &&& l.y_pos == output.rect.y
    &&& l.scale == match output.scale {
        Some(s) => s,
        None => 1000,
    }
    &&& l.transform == transform_code(
        transform_of_sway(
            match output.transform {
                Some(s) => Some(s@),
                None => None,
            },
        ),
    )
    &&& l.primary == output.primary
    &&& l.monitors@.len() == 1
    &&& description_view(l.monitors@[0]) == output_description(output)
    &&& l.properties == (LogicalMonitorProperties { dummy: None, dummy2: None })
}

/// Builds the display name of a monitor identity.
pub(crate) fn name_of(d: &MonitorDescription) -> (r: String)
    ensures
        r@ == description_name(*d),
{
    let mut s = d.vendor.clone();
    push_char(&mut s, ' ');
    s.append(d.product.as_str());
    push_char(&mut s, ' ');
    s.append(d.serial.as_str());
    assert(s@ =~= description_name(*d));
    s
}

/// A copy of a monitor identity.
pub(crate) fn copy_description(d: &MonitorDescription) -> (r: MonitorDescription)
    ensures
        description_view(r) == description_view(*d),
{
    MonitorDescription {
        connector: d.connector.clone(),
        vendor: d.vendor.clone(),
        product: d.product.clone(),
        serial: d.serial.clone(),
    }
}

/// The identity of the monitor behind `output`.
fn description_of(output: &OutputInfo) -> (r: MonitorDescription)
    ensures
        description_view(r) == output_description(*output),
{
    MonitorDescription {
        connector: output.name.clone(),
        vendor: output.make.clone(),
        product: output.model.clone(),
        serial: output.serial.clone(),
    }
}

impl MonitorProperties {
    pub fn new(output: &OutputInfo) -> (r: MonitorProperties)
        ensures
            is_properties_of(*output, r),
    {
        let mut name = output.make.clone();
        push_char(&mut name, ' ');
        name.append(output.model.as_str());
        push_char(&mut name, ' ');
        name.append(output.serial.as_str());
        assert(name@ =~= display_name(output.make@, output.model@, output.serial@));
        let builtin = crate::text::has_prefix(output.name.as_str(), "eDP");
        proof {
            reveal_strlit("eDP");
        }
        MonitorProperties {
            width: Some(output.rect.width),
            height: Some(output.rect.height),
            name: Some(name),
            builtin: Some(builtin),
            max_size: None,
            underscanning: None,
        }
    }
}

impl Monitor {
    pub fn new(output: &OutputInfo) -> (r: Monitor)
        ensures
            is_monitor_of(*output, r),
    {
        let mut modes: Vec<Modes> = Vec::new();
        let mut i: usize = 0;
        while i < output.modes.len()
            invariant
                i <= output.modes@.len(),
                modes@.len() == i,
                forall|j: int| 0 <= j < i ==> is_mode_of(*output, output.modes@[j], #[trigger] modes@[j]),
            decreases output.modes.len() - i,
        {
            let m = Modes::new(output, &output.modes[i]);
            modes.push(m);
            i = i + 1;
        }
        Monitor {
            description: description_of(output),
            modes,
            properties: MonitorProperties::new(output),
        }
    }

    /// The first mode with identifier `mode_id`.
    pub fn search_modes(&self, mode_id: &str) -> (r: Option<&Modes>)
        ensures
            match r {
                Some(m) => find_mode(self.modes@, mode_id@) == Some(*m),
                None => find_mode(self.modes@, mode_id@) is None,
            },
    {
        let mut i: usize = 0;
        assert(self.modes@.subrange(0, self.modes@.len() as int) == self.modes@);
        while i < self.modes.len()
            invariant
                i <= self.modes@.len(),
                find_mode(self.modes@, mode_id@) == find_mode(self.modes@.subrange(i as int, self.modes@.len() as int), mode_id@),
            decreases self.modes.len() - i,
        {
            let ghost rest = self.modes@.subrange(i as int, self.modes@.len() as int);
            assert(rest.drop_first() == self.modes@.subrange(i + 1, self.modes@.len() as int));
            if same_text(self.modes[i].get_id(), mode_id) {
                return Some(&self.modes[i]);
            }
            i = i + 1;
        }
        None
    }

    pub fn get_dpy_name(&self) -> (r: String)
        ensures
            r@ == description_name(self.description),
    {
        name_of(&self.description)
    }

    /// The identifier of the current mode, or `Unknown`.
    pub fn get_current_mode(&self) -> (r: &str)
        ensures
            r@ == current_mode_text(self.modes@),
    {
        let mut i: usize = 0;
        assert(self.modes@.subrange(0, self.modes@.len() as int) == self.modes@);
        while i < self.modes.len()
            invariant
                i <= self.modes@.len(),
                current_mode_of(self.modes@) == current_mode_of(self.modes@.subrange(i as int, self.modes@.len() as int)),
            decreases self.modes.len() - i,
        {
            let ghost rest = self.modes@.subrange(i as int, self.modes@.len() as int);
            assert(rest.drop_first() == self.modes@.subrange(i + 1, self.modes@.len() as int));
            if self.modes[i].current() {
                return self.modes[i].get_modestr();
            }
            i = i + 1;
        }
        "Unknown"
    }
}

impl LogicalMonitor {
    pub fn new(output: &OutputInfo) -> (r: LogicalMonitor)
        ensures
            is_logical_monitor_of(*output, r),
    {
        let mut monitors: Vec<MonitorDescription> = Vec::new();
        monitors.push(description_of(output));
        let scale = match output.scale {
            Some(s) => s,
            None => 1000,
        };
        let transform = MonitorTransform::from_sway(&output.transform).to_u32();
        LogicalMonitor {
            x_pos: output.rect.x,
            y_pos: output.rect.y,
            scale,
            transform,
            primary: output.primary,
            monitors,
            properties: LogicalMonitorProperties { dummy: None, dummy2: None },
        }
    }

    pub fn get_dpy_name(&self) -> (r: String)
        requires
            self.monitors@.len() > 0,
        ensures
            r@ == description_name(self.monitors@[0]),
    {
        name_of(&self.monitors[0])
    }
}

} // verus!

verus! {

// ---------------------------------------------------------------------------
// Apply request entries
// ---------------------------------------------------------------------------

/// The monitor and mode an entry asks for; `None` for an entry that names none.
pub open spec fn request_selection(r: MonitorApply) -> Option<MonitorSelection> {
    if r.monitors@.len() > 0 {
        Some(r.monitors@[0])
    } else {
        None
    }
}

/// The store monitor an entry refers to, by connector.
pub open spec fn resolve_monitor(monitors: Seq<Monitor>, r: MonitorApply) -> Option<Monitor> {
    match request_selection(r) {
        Some(sel) => find_monitor(monitors, sel.connector@),
        None => None,
    }
}

/// The validation rules for one entry against the store's monitors: the
/// monitor must exist, the mode must be one of the monitor's, the scale one
/// the mode supports, and the transform one of the eight.
pub open spec fn validation(monitors: Seq<Monitor>, r: MonitorApply) -> Result<(), ApplyError> {
    match resolve_monitor(monitors, r) {
        None => Err(ApplyError::MonitorNotFound),
        Some(m) => match find_mode(m.modes@, r.monitors@[0].mode@) {
            None => Err(ApplyError::InvalidMode),
            Some(mode) => if !mode.supported_scales@.contains(r.scale) {
                Err(ApplyError::InvalidScale)
            } else if transform_of_code(r.transform) is None {
                Err(ApplyError::InvalidTransform)
            } else {
                Ok(())
            },
        },
    }
}

/// The profile line that enables monitor `m` in mode `mode` as entry `r` asks.
pub open spec fn enable_line(r: MonitorApply, m: Monitor, mode: Modes) -> Seq<char> {
    "\toutput \""@ + description_name(m.description) + "\" mode "@ + mode.id@ + " position "@
        + int_text(r.x_pos as int) + ","@ + int_text(r.y_pos as int) + " transform "@
        + sway_name(transform_or_normal(r.transform)) + " scale "@ + milli_text(r.scale as int)
        + " enable\n"@
}

/// The profile line that disables monitor `m`.
pub open spec fn disable_line(m: Monitor) -> Seq<char> {
    "\toutput \""@ + description_name(m.description) + "\" disable\n"@
}

/// What `save_kanshi` appends for entry `r` and monitor `m`: the enable line
/// when the mode asked for is one of `m`'s, nothing otherwise.
pub open spec fn kanshi_line(r: MonitorApply, m: Monitor) -> Seq<char> {
    match request_selection(r) {
        Some(sel) => match find_mode(m.modes@, sel.mode@) {
            Some(mode) => enable_line(r, m, mode),
            None => Seq::empty(),
        },
        None => Seq::empty(),
    }
}

impl MonitorApply {
    /// The identifier of the mode this entry asks for, when `monitor` has it.
    pub(crate) fn get_modestr(&self, monitor: &Monitor) -> (r: Option<String>)
        ensures
            match request_selection(*self) {
                Some(sel) => match find_mode(monitor.modes@, sel.mode@) {
                    Some(mode) => r is Some && r->Some_0@ == mode.id@,
                    None => r is None,
                },
                None => r is None,
            },
    {
        if self.monitors.len() == 0 {
            return None;
        }
        match monitor.search_modes(self.monitors[0].mode.as_str()) {
            Some(x) => Some(x.id.clone()),
            None => None,
        }
    }

    /// The store monitor plugged into the connector this entry names.
    pub fn search_monitor<'a>(&self, monitors: &'a Vec<Monitor>) -> (r: Option<&'a Monitor>)
        ensures
            match r {
                Some(m) => resolve_monitor(monitors@, *self) == Some(*m),
                None => resolve_monitor(monitors@, *self) is None,
            },
    {
        if self.monitors.len() == 0 {
            return None;
        }
        let connector = self.monitors[0].connector.as_str();
        let mut i: usize = 0;
        assert(monitors@.subrange(0, monitors@.len() as int) == monitors@);
        while i < monitors.len()
            invariant
                i <= monitors@.len(),
                self.monitors@.len() > 0,
                connector@ == self.monitors@[0].connector@,
                find_monitor(monitors@, connector@) == find_monitor(monitors@.subrange(i as int, monitors@.len() as int), connector@),
            decreases monitors.len() - i,
        {
            let ghost rest = monitors@.subrange(i as int, monitors@.len() as int);
            assert(rest.drop_first() == monitors@.subrange(i + 1, monitors@.len() as int));
            if same_text(monitors[i].description.connector.as_str(), connector) {
                assert(rest[0] == monitors@[i as int]);
                return Some(&monitors[i]);
            }
            i = i + 1;
        }
        None
    }

    /// The logical monitor placing the monitor this entry names.
    pub fn search_logical_monitor<'a>(&self, logical_monitors: &'a Vec<LogicalMonitor>) -> (r: Option<&'a LogicalMonitor>)
        ensures
            match request_selection(*self) {
                Some(sel) => match r {
                    Some(l) => find_logical_monitor(logical_monitors@, sel.connector@) == Some(*l),
                    None => find_logical_monitor(logical_monitors@, sel.connector@) is None,
                },
                None => r is None,
            },
    {
        if self.monitors.len() == 0 {
            return None;
        }
        let connector = self.monitors[0].connector.as_str();
        let mut i: usize = 0;
        assert(logical_monitors@.subrange(0, logical_monitors@.len() as int) == logical_monitors@);
        while i < logical_monitors.len()
            invariant
                i <= logical_monitors@.len(),
                self.monitors@.len() > 0,
                connector@ == self.monitors@[0].connector@,
                find_logical_monitor(logical_monitors@, connector@) == find_logical_monitor(
                    logical_monitors@.subrange(i as int, logical_monitors@.len() as int),
                    connector@,
                ),
            decreases logical_monitors.len() - i,
        {
            let ghost rest = logical_monitors@.subrange(i as int, logical_monitors@.len() as int);
            assert(rest.drop_first() == logical_monitors@.subrange(i + 1, logical_monitors@.len() as int));
            let l = &logical_monitors[i];
            if l.monitors.len() > 0 && same_text(l.monitors[0].connector.as_str(), connector) {
                assert(rest[0] == logical_monitors@[i as int]);
                return Some(l);
            }
            i = i + 1;
        }
        None
    }

    /// Appends this entry's profile line for `monitor`; appends nothing when
    /// the mode asked for is not one of `monitor`'s.
    pub fn save_kanshi(&self, kanshi_file: &mut String, monitor: &Monitor)
        ensures
            final(kanshi_file)@ == old(kanshi_file)@ + kanshi_line(*self, *monitor),
    {
        let ghost start = kanshi_file@;
        let mode = match self.get_modestr(monitor) {
            Some(x) => x,
            None => {
                assert(kanshi_file@ == start + kanshi_line(*self, *monitor));
                return;
            },
        };
        let dpy_name = monitor.get_dpy_name();
        let transform = match MonitorTransform::from_u32(self.transform) {
            Some(t) => t,
            None => MonitorTransform::Normal,
        };
        kanshi_file.append("\toutput \"");
        kanshi_file.append(dpy_name.as_str());
        kanshi_file.append("\" mode ");
        kanshi_file.append(mode.as_str());
        kanshi_file.append(" position ");
        push_int(kanshi_file, self.x_pos as i64);
        kanshi_file.append(",");
        push_int(kanshi_file, self.y_pos as i64);
        kanshi_file.append(" transform ");
        kanshi_file.append(transform.to_sway());
        kanshi_file.append(" scale ");
        push_milli(kanshi_file, self.scale as i64);
        kanshi_file.append(" enable\n");
        assert(kanshi_file@ =~= start + kanshi_line(*self, *monitor));
    }

    /// Checks this entry against the store's monitors, without changing anything.
    pub fn verify(&self, monitors: &Vec<Monitor>) -> (r: Result<(), ApplyError>)
        ensures
            r == validation(monitors@, *self),
    {
        let monitor = match self.search_monitor(monitors) {
            Some(m) => m,
            None => return Err(ApplyError::MonitorNotFound),
        };
        let mode = match monitor.search_modes(self.monitors[0].mode.as_str()) {
            Some(m) => m,
            None => return Err(ApplyError::InvalidMode),
        };
        if !mode.is_valid_scale(self.scale) {
            return Err(ApplyError::InvalidScale);
        }
        if MonitorTransform::from_u32(self.transform).is_none() {
            return Err(ApplyError::InvalidTransform);
        }
        Ok(())
    }
}

} // verus!
