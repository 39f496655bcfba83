//! State and protocol logic of a display-configuration daemon: the display
//! state store, the apply/verify request flow with its serial check, the
//! change detection of the polling watcher, and the rendering of an
//! accepted layout into a profile document.
use vstd::prelude::*;

pub mod modes;
pub mod monitor;
pub mod profile;

pub mod text;
pub mod watch;


use crate::monitor::{
    description_view,
    is_logical_monitor_of, is_monitor_of, LogicalMonitor, Monitor, OutputInfo,
};
use vstd::string::StrSliceExecFns;
use vstd::string::StringExecFns;

verus! {

/// Why an apply or verify request failed.
#[derive(Debug, Clone, PartialEq, Eq)]
pub enum ApplyError {
    /// The request carried a serial other than the store's.
    StaleSerial,
    /// An entry names a connector that no monitor of the store is plugged into.
    MonitorNotFound,
    /// An entry asks for a mode its monitor does not have.
    InvalidMode,
    /// An entry asks for a scale its mode does not support.
    InvalidScale,
    /// An entry asks for a transform code outside the eight defined ones.
    InvalidTransform,
    /// Writing the profile failed; the message says why.
    PersistenceFailure(String),
}

/// Adapter-wide display properties advertised to clients.
#[derive(Debug, Clone, Copy, PartialEq, Eq, Structural)]
pub struct DisplayManagerProperties {
    pub layout: Option<u32>,
    pub support_layout_change: Option<bool>,
    pub global_scale: Option<bool>,
    pub legacy_scale_factor: Option<i32>,
}

/// The properties advertised at startup.
pub open spec fn default_properties() -> DisplayManagerProperties {
    DisplayManagerProperties {
        layout: Some(1),
        support_layout_change: Some(true),
        global_scale: Some(false),
        legacy_scale_factor: Some(1),
    }
}

impl DisplayManagerProperties {
    pub fn new() -> (r: DisplayManagerProperties)
        ensures
            r == default_properties(),
    {
        DisplayManagerProperties {
            layout: Some(1),
            support_layout_change: Some(true),
            global_scale: Some(false),
            legacy_scale_factor: Some(1),
        }
    }
}

/// An error with a description.
#[derive(Debug, Clone)]
pub struct ServerError {
    pub description: String,
}

impl ServerError {
    pub fn _produce_error(err: &str) -> (r: ServerError)
        ensures
            r.description@ == err@,
    {
        ServerError { description: String::from_str(err) }
    }

    pub fn description(&self) -> (r: &str)
        ensures
            r@ == self.description@,
    {
        self.description.as_str()
    }
}

/// Where profiles are kept and where the profile tool's configuration lives.
#[derive(Debug, Clone)]
pub struct KanshiPaths {
    pub profiles: String,
    pub config: String,
}

/// `base` joined with the relative path `name`: a separator is added unless
/// `base` is empty or already ends with one.
pub open spec fn join_path(base: Seq<char>, name: Seq<char>) -> Seq<char> {
    if base.len() == 0 || base.last() == '/' {
        base + name
    } else {
        base + seq!['/'] + name
    }
}

/// The base directory used when none is configured.
pub open spec fn default_base(home: Seq<char>) -> Seq<char> {
    home + "/.config/regolith3/kanshi"@
}

fn join_to(base: &str, name: &str) -> (r: String)
    ensures
        r@ == join_path(base@, name@),
{
    let mut s = String::from_str(base);
    let n = base.unicode_len();
    if n > 0 && base.get_char(n - 1) != '/' {
        crate::text::push_char(&mut s, '/');
        s.append(name);
        assert(s@ =~= join_path(base@, name@));
    } else {
        s.append(name);
    }
    s
}

impl KanshiPaths {
    /// The profile directory and configuration file under `base`.
    pub fn new(base: &str) -> (r: KanshiPaths)
        ensures
            r.profiles@ == join_path(base@, "profiles"@),
            r.config@ == join_path(base@, "config"@),
    {
        KanshiPaths { profiles: join_to(base, "profiles"), config: join_to(base, "config") }
    }

    /// The base directory under the home directory `home`.
    pub fn default_base(home: &str) -> (r: String)
        ensures
            r@ == default_base(home@),
    {
        let mut s = String::from_str(home);
        s.append("/.config/regolith3/kanshi");
        s
    }
}

/// The monitors and active placements read from the compositor in one query.
#[derive(Debug, Clone)]
pub struct MonitorInfo {
    pub monitors: Vec<Monitor>,
    pub logical_monitors: Vec<LogicalMonitor>,
}

/// `info` is what the compositor's `outputs` describe: one monitor per
/// output, and one logical monitor per active output, in order.
pub open spec fn is_info_of(outputs: Seq<OutputInfo>, info: MonitorInfo) -> bool {
    let active = outputs.filter(|o: OutputInfo| o.active);
    &&& info.monitors@.len() == outputs.len()
    &&& forall|i: int| 0 <= i < outputs.len() ==> is_monitor_of(outputs[i], #[trigger] info.monitors@[i])
    &&& info.logical_monitors@.len() == active.len()
    &&& forall|i: int| 0 <= i < active.len() ==> is_logical_monitor_of(active[i], #[trigger] info.logical_monitors@[i])
}

/// Every logical monitor places at least one monitor, and the first one it
/// places is a monitor of the same snapshot.
pub open spec fn snapshot_consistent(monitors: Seq<Monitor>, logical: Seq<LogicalMonitor>) -> bool {
    forall|i: int|
        0 <= i < logical.len() ==> {
            &&& (#[trigger] logical[i]).monitors@.len() > 0
            &&& exists|j: int|
                0 <= j < monitors.len() && description_view(monitors[j].description)
                    == description_view(logical[i].monitors@[0])
        }
}

/// A snapshot built from one query is consistent.
pub proof fn lemma_info_consistent(outputs: Seq<OutputInfo>, info: MonitorInfo)
    requires
        is_info_of(outputs, info),
    ensures
        snapshot_consistent(info.monitors@, info.logical_monitors@),
{
    let pred = |o: OutputInfo| o.active;
    let active = outputs.filter(pred);
    assert forall|i: int| 0 <= i < info.logical_monitors@.len() implies {
        &&& (#[trigger] info.logical_monitors@[i]).monitors@.len() > 0
        &&& exists|j: int|
            0 <= j < info.monitors@.len() && description_view(info.monitors@[j].description)
                == description_view(info.logical_monitors@[i].monitors@[0])
    } by {
        assert(is_logical_monitor_of(active[i], info.logical_monitors@[i]));
        assert(active.contains(active[i]));
        outputs.lemma_filter_contains_rev(pred, active[i]);
        let j = choose|j: int| 0 <= j < outputs.len() && outputs[j] == active[i];
        assert(is_monitor_of(outputs[j], info.monitors@[j]));
    }
}

/// The display state store: the serial, the monitors with their modes, the
/// active placements and the global properties.
///
/// The serial is the token of optimistic concurrency. It starts at 0 and
/// moves on by one (wrapping) each time the store takes new monitor lists
/// from a successful apply or from a change the watcher detected, so a
/// client holding an older snapshot is refused.
#[derive(Debug, Clone)]
pub struct DisplayManager {
    pub serial: u32,
    pub monitors: Vec<Monitor>,
    pub logical_monitors: Vec<LogicalMonitor>,
    pub properties: DisplayManagerProperties,
}

/// The serial that follows `s`.
pub open spec fn next_serial(s: u32) -> u32 {
    if s == u32::MAX {
        0
    } else {
        (s + 1) as u32
    }
}

impl DisplayManager {
    /// Every logical monitor of the store places a monitor of the store.
    pub open spec fn well_formed(&self) -> bool {
        snapshot_consistent(self.monitors@, self.logical_monitors@)
    }

    /// The store at startup: serial 0, no monitors, default properties.
    pub fn new() -> (r: DisplayManager)
        ensures
            r.serial == 0,
            r.monitors@.len() == 0,
            r.logical_monitors@.len() == 0,
            r.properties == default_properties(),
            r.well_formed(),
    {
        DisplayManager {
            serial: 0,
            monitors: Vec::new(),
            logical_monitors: Vec::new(),
            properties: DisplayManagerProperties::new(),
        }
    }

    /// The monitors and logical monitors that the compositor's outputs describe.
    pub fn get_monitor_info(outputs: &Vec<OutputInfo>) -> (r: MonitorInfo)
        ensures
            is_info_of(outputs@, r),
            snapshot_consistent(r.monitors@, r.logical_monitors@),
    {
        let mut monitors: Vec<Monitor> = Vec::new();
        let mut logical_monitors: Vec<LogicalMonitor> = Vec::new();
        let ghost pred = |o: OutputInfo| o.active;
        let mut i: usize = 0;
        while i < outputs.len()
            invariant
                i <= outputs@.len(),
                pred == (|o: OutputInfo| o.active),
                monitors@.len() == i,
                forall|j: int| 0 <= j < i ==> is_monitor_of(outputs@[j], #[trigger] monitors@[j]),
                logical_monitors@.len() == outputs@.subrange(0, i as int).filter(pred).len(),
                forall|j: int|
                    0 <= j < logical_monitors@.len() ==> is_logical_monitor_of(
                        outputs@.subrange(0, i as int).filter(pred)[j],
                        #[trigger] logical_monitors@[j],
                    ),
            decreases outputs.len() - i,
        {
            let o = &outputs[i];
            proof {
                assert(outputs@.subrange(0, i + 1) == outputs@.subrange(0, i as int).push(*o));
                outputs@.subrange(0, i as int).lemma_filter_push(*o, pred);
            }
            monitors.push(Monitor::new(o));
            if o.active {
                logical_monitors.push(LogicalMonitor::new(o));
            }
            i = i + 1;
        }
        assert(outputs@.subrange(0, outputs@.len() as int) == outputs@);
        let r = MonitorInfo { monitors, logical_monitors };
        proof {
            lemma_info_consistent(outputs@, r);
        }
        r
    }
}

} // verus!
