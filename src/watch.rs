//! Change detection for the polling watcher: each cycle's query result is
//! compared with the sets seen when the store last took a change.
use vstd::prelude::*;

use crate::monitor::{
    copy_description, current_mode_text, description_view, LogicalMonitor, Monitor,
    MonitorDescription,
};
use crate::profile::{description_views, DescriptionView};
use crate::{next_serial, snapshot_consistent, DisplayManager, MonitorInfo};
use vstd::string::StringExecFns;

verus! {

/// What identifies a physical monitor between two cycles: its identity and
/// the identifier of its current mode.
#[derive(Debug, Clone)]
pub struct MonitorKey {
    pub description: MonitorDescription,
    pub current_mode: String,
}

/// What identifies a logical monitor between two cycles: its placement,
/// scale and transform, and the monitors it places (not `primary`).
#[derive(Debug, Clone)]
pub struct LogicalKey {
    pub x_pos: i32,
    pub y_pos: i32,
    pub scale: u32,
    pub transform: u32,
    pub monitors: Vec<MonitorDescription>,
}

/// The keys seen when the store last took a change.
#[derive(Debug, Clone)]
pub struct ChangeWatcher {
    pub monitors: Vec<MonitorKey>,
    pub logical_monitors: Vec<LogicalKey>,
}

pub type MonitorKeyView = (DescriptionView, Seq<char>);

pub type LogicalKeyView = (i32, i32, u32, u32, Seq<DescriptionView>);

/// The key of a physical monitor.
pub open spec fn monitor_key(m: Monitor) -> MonitorKeyView {
    (description_view(m.description), current_mode_text(m.modes@))
}

/// The key of a logical monitor.
pub open spec fn logical_key(l: LogicalMonitor) -> LogicalKeyView {
    (l.x_pos, l.y_pos, l.scale, l.transform, description_views(l.monitors@))
}

pub open spec fn monitor_key_view(k: MonitorKey) -> MonitorKeyView {
    (description_view(k.description), k.current_mode@)
}

pub open spec fn logical_key_view(k: LogicalKey) -> LogicalKeyView {
    (k.x_pos, k.y_pos, k.scale, k.transform, description_views(k.monitors@))
}

/// The keys of all monitors of a query result.
pub open spec fn monitor_keys(ms: Seq<Monitor>) -> Seq<MonitorKeyView> {
    ms.map_values(|m: Monitor| monitor_key(m))
}

/// The keys of all logical monitors of a query result.
pub open spec fn logical_keys(ls: Seq<LogicalMonitor>) -> Seq<LogicalKeyView> {
    ls.map_values(|l: LogicalMonitor| logical_key(l))
}

impl ChangeWatcher {
    pub open spec fn monitor_views(&self) -> Seq<MonitorKeyView> {
        self.monitors@.map_values(|k: MonitorKey| monitor_key_view(k))
    }

    pub open spec fn logical_views(&self) -> Seq<LogicalKeyView> {
        self.logical_monitors@.map_values(|k: LogicalKey| logical_key_view(k))
    }

    /// A watcher that has seen nothing yet.
    pub fn new() -> (r: ChangeWatcher)
        ensures
            r.monitors@.len() == 0,
            r.logical_monitors@.len() == 0,
    {
        ChangeWatcher { monitors: Vec::new(), logical_monitors: Vec::new() }
    }
}

/// A query result holds a monitor or a logical monitor whose key is not
/// among those seen before.
pub open spec fn changes_detected(
    prev_monitors: Seq<MonitorKeyView>,
    prev_logical: Seq<LogicalKeyView>,
    info: MonitorInfo,
) -> bool {
    ||| exists|i: int|
        0 <= i < info.monitors@.len() && !prev_monitors.contains(#[trigger] monitor_key(info.monitors@[i]))
    ||| exists|i: int|
        0 <= i < info.logical_monitors@.len() && !prev_logical.contains(
            #[trigger] logical_key(info.logical_monitors@[i]),
        )
}

fn copy_descriptions(v: &Vec<MonitorDescription>) -> (r: Vec<MonitorDescription>)
    ensures
        description_views(r@) == description_views(v@),
{
    let mut r: Vec<MonitorDescription> = Vec::new();
    let mut i: usize = 0;
    while i < v.len()
        invariant
            i <= v@.len(),
            description_views(r@) == description_views(v@.subrange(0, i as int)),
        decreases v.len() - i,
    {
        let ghost before = r@;
        let d = copy_description(&v[i]);
        r.push(d);
        assert(description_views(r@) =~= description_views(before).push(description_view(d)));
        assert(description_views(v@.subrange(0, i + 1)) =~= description_views(v@.subrange(0, i as int)).push(
            description_view(v@[i as int]),
        ));
        i = i + 1;
    }
    assert(v@.subrange(0, v@.len() as int) == v@);
    r
}

fn same_description(a: &MonitorDescription, b: &MonitorDescription) -> (r: bool)
    ensures
        r == (description_view(*a) == description_view(*b)),
{
    a.connector == b.connector && a.vendor == b.vendor && a.product == b.product && a.serial
        == b.serial
}

fn same_descriptions(a: &Vec<MonitorDescription>, b: &Vec<MonitorDescription>) -> (r: bool)
    ensures
        r == (description_views(a@) == description_views(b@)),
{
    if a.len() != b.len() {
        assert(description_views(a@).len() != description_views(b@).len());
        return false;
    }
    let mut i: usize = 0;
    while i < a.len()
        invariant
            i <= a@.len(),
            a@.len() == b@.len(),
            forall|k: int| 0 <= k < i ==> description_view(a@[k]) == description_view(b@[k]),
        decreases a.len() - i,
    {
        if !same_description(&a[i], &b[i]) {
            assert(description_views(a@)[i as int] != description_views(b@)[i as int]);
            return false;
        }
        i = i + 1;
    }
    assert(description_views(a@) =~= description_views(b@));
    true
}

fn key_of(m: &Monitor) -> (r: MonitorKey)
    ensures
        monitor_key_view(r) == monitor_key(*m),
{
    MonitorKey {
        description: copy_description(&m.description),
        current_mode: String::from_str(m.get_current_mode()),
    }
}

fn logical_key_of(l: &LogicalMonitor) -> (r: LogicalKey)
    ensures
        logical_key_view(r) == logical_key(*l),
{
    LogicalKey {
        x_pos: l.x_pos,
        y_pos: l.y_pos,
        scale: l.scale,
        transform: l.transform,
        monitors: copy_descriptions(&l.monitors),
    }
}

fn has_monitor_key(keys: &Vec<MonitorKey>, k: &MonitorKey) -> (r: bool)
    ensures
        r == keys@.map_values(|x: MonitorKey| monitor_key_view(x)).contains(monitor_key_view(*k)),
{
    let ghost kv = keys@.map_values(|x: MonitorKey| monitor_key_view(x));
    let mut i: usize = 0;
    while i < keys.len()
        invariant
            i <= keys@.len(),
            kv == keys@.map_values(|x: MonitorKey| monitor_key_view(x)),
            forall|j: int| 0 <= j < i ==> kv[j] != monitor_key_view(*k),
        decreases keys.len() - i,
    {
        let x = &keys[i];
        if same_description(&x.description, &k.description) && x.current_mode == k.current_mode {
            assert(kv[i as int] == monitor_key_view(*k));
            return true;
        }
        i = i + 1;
    }
    false
}

fn has_logical_key(keys: &Vec<LogicalKey>, k: &LogicalKey) -> (r: bool)
    ensures
        r == keys@.map_values(|x: LogicalKey| logical_key_view(x)).contains(logical_key_view(*k)),
{
    let ghost kv = keys@.map_values(|x: LogicalKey| logical_key_view(x));
    let mut i: usize = 0;
    while i < keys.len()
        invariant
            i <= keys@.len(),
            kv == keys@.map_values(|x: LogicalKey| logical_key_view(x)),
            forall|j: int| 0 <= j < i ==> kv[j] != logical_key_view(*k),
        decreases keys.len() - i,
    {
        let x = &keys[i];
        if x.x_pos == k.x_pos && x.y_pos == k.y_pos && x.scale == k.scale && x.transform
            == k.transform && same_descriptions(&x.monitors, &k.monitors) {
            assert(kv[i as int] == logical_key_view(*k));
            return true;
        }
        i = i + 1;
    }
    false
}

impl DisplayManager {
    /// One cycle of the watcher, given what the compositor query returned
    /// (`None` when it failed). When the result holds a monitor or a logical
    /// monitor not seen before, the store takes the new lists and the next
    /// serial, the watcher remembers the new keys, and the result is `true`:
    /// the caller emits one change notification. Otherwise, and when the
    /// query failed, nothing changes and the result is `false`.
    pub fn detect_changes(&mut self, watcher: &mut ChangeWatcher, info: Option<MonitorInfo>) -> (changed: bool)
        ensures
            match info {
                Some(i) => changed == changes_detected(
                    old(watcher).monitor_views(),
                    old(watcher).logical_views(),
                    i,
                ),
                None => !changed,
            },
            changed ==> {
                &&& info is Some
                &&& final(self).monitors == info->Some_0.monitors
                &&& final(self).logical_monitors == info->Some_0.logical_monitors
                &&& final(self).serial == next_serial(old(self).serial)
                &&& final(self).properties == old(self).properties
                &&& final(watcher).monitor_views() == monitor_keys(info->Some_0.monitors@)
                &&& final(watcher).logical_views() == logical_keys(info->Some_0.logical_monitors@)
            },
            !changed ==> *final(self) == *old(self) && *final(watcher) == *old(watcher),
            old(self).well_formed() && (info matches Some(i) ==> snapshot_consistent(
                i.monitors@,
                i.logical_monitors@,
            )) ==> final(self).well_formed(),
    {
        let info = match info {
            Some(i) => i,
            None => return false,
        };
        let ghost prev_m = watcher.monitor_views();
        let ghost prev_l = watcher.logical_views();
        let mut changed = false;
        let mut monitor_keys_now: Vec<MonitorKey> = Vec::new();
        let mut i: usize = 0;
        while i < info.monitors.len()
            invariant
                i <= info.monitors@.len(),
                prev_m == watcher.monitor_views(),
                monitor_keys_now@.map_values(|x: MonitorKey| monitor_key_view(x)) == monitor_keys(
                    info.monitors@.subrange(0, i as int),
                ),
                changed == exists|j: int|
                    0 <= j < i && !prev_m.contains(#[trigger] monitor_key(info.monitors@[j])),
            decreases info.monitors.len() - i,
        {
            let k = key_of(&info.monitors[i]);
            if !has_monitor_key(&watcher.monitors, &k) {
                changed = true;
            }
            let ghost before = monitor_keys_now@;
            let ghost kv = monitor_key_view(k);
            monitor_keys_now.push(k);
            assert(monitor_keys_now@.map_values(|x: MonitorKey| monitor_key_view(x)) =~= before.map_values(
                |x: MonitorKey| monitor_key_view(x),
            ).push(kv));
            assert(monitor_keys(info.monitors@.subrange(0, i + 1)) =~= monitor_keys(
                info.monitors@.subrange(0, i as int),
            ).push(monitor_key(info.monitors@[i as int])));
            i = i + 1;
        }
        let ghost changed_m = changed;
        let mut logical_keys_now: Vec<LogicalKey> = Vec::new();
        let mut i: usize = 0;
        while i < info.logical_monitors.len()
            invariant
                i <= info.logical_monitors@.len(),
                prev_l == watcher.logical_views(),
                logical_keys_now@.map_values(|x: LogicalKey| logical_key_view(x)) == logical_keys(
                    info.logical_monitors@.subrange(0, i as int),
                ),
                changed == (changed_m || exists|j: int|
                    0 <= j < i && !prev_l.contains(#[trigger] logical_key(info.logical_monitors@[j]))),
            decreases info.logical_monitors.len() - i,
        {
            let k = logical_key_of(&info.logical_monitors[i]);
            if !has_logical_key(&watcher.logical_monitors, &k) {
                changed = true;
            }
            let ghost before = logical_keys_now@;
            let ghost kv = logical_key_view(k);
            logical_keys_now.push(k);
            assert(logical_keys_now@.map_values(|x: LogicalKey| logical_key_view(x)) =~= before.map_values(
                |x: LogicalKey| logical_key_view(x),
            ).push(kv));
            assert(logical_keys(info.logical_monitors@.subrange(0, i + 1)) =~= logical_keys(
                info.logical_monitors@.subrange(0, i as int),
            ).push(logical_key(info.logical_monitors@[i as int])));
            i = i + 1;
        }
        assert(info.monitors@.subrange(0, info.monitors@.len() as int) == info.monitors@);
        assert(info.logical_monitors@.subrange(0, info.logical_monitors@.len() as int)
            == info.logical_monitors@);
        if changed {
            watcher.monitors = monitor_keys_now;
            watcher.logical_monitors = logical_keys_now;
            self.monitors = info.monitors;
            self.logical_monitors = info.logical_monitors;
            self.serial = if self.serial == u32::MAX {
                0
            } else {
                self.serial + 1
            };
        }
        changed
    }
}

} // verus!

verus! {

/// A cycle detects a change exactly when some monitor or logical monitor
/// it returned was not seen before; a cycle where every one was seen is quiet.
pub proof fn lemma_change_iff_unseen(
    prev_monitors: Seq<MonitorKeyView>,
    prev_logical: Seq<LogicalKeyView>,
    info: MonitorInfo,
)
    ensures
        !changes_detected(prev_monitors, prev_logical, info) <==> (
        (forall|i: int| 0 <= i < info.monitors@.len() ==> prev_monitors.contains(#[trigger] monitor_key(info.monitors@[i])))
        && (forall|i: int| 0 <= i < info.logical_monitors@.len() ==> prev_logical.contains(#[trigger] logical_key(info.logical_monitors@[i])))),
{
}

/// Once the watcher has taken a query result, a cycle that returns the same
/// result again detects no change.
pub proof fn lemma_repeat_cycle_quiet(info: MonitorInfo)
    ensures
        !changes_detected(monitor_keys(info.monitors@), logical_keys(info.logical_monitors@), info),
{
    assert forall|i: int| 0 <= i < info.monitors@.len() implies monitor_keys(info.monitors@).contains(
        #[trigger] monitor_key(info.monitors@[i]),
    ) by {
        assert(monitor_keys(info.monitors@)[i] == monitor_key(info.monitors@[i]));
    }
    assert forall|i: int| 0 <= i < info.logical_monitors@.len() implies logical_keys(info.logical_monitors@).contains(
        #[trigger] logical_key(info.logical_monitors@[i]),
    ) by {
        assert(logical_keys(info.logical_monitors@)[i] == logical_key(info.logical_monitors@[i]));
    }
}

} // verus!
