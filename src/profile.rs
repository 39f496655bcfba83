//! The apply/verify request flow, and how an accepted layout becomes a
//! profile document with its file name.
use vstd::prelude::*;

use crate::monitor::{
    copy_description, description_name, description_view, disable_line, kanshi_line, name_of,
    resolve_monitor, validation, Monitor, MonitorApply, MonitorDescription,
};
use crate::text::{
    lemma_lex_le_total, lemma_lex_le_total_ordering, lemma_lex_le_transitive, lex_le,
    push_underscored, text_le, underscored,
};
use vstd::relations::sorted_by;
use crate::{next_serial, snapshot_consistent, ApplyError, DisplayManager, DisplayManagerProperties, MonitorInfo};
use vstd::string::StringExecFns;

verus! {

/// The characters of a monitor identity: connector, vendor, product, serial.
pub type DescriptionView = (Seq<char>, Seq<char>, Seq<char>, Seq<char>);

/// The profile document and the file name it is to be written under.
#[derive(Debug, Clone)]
pub struct ProfileWrite {
    pub name: String,
    pub contents: String,
}

/// What an accepted apply request asks the caller to do next.
#[derive(Debug, Clone)]
pub enum ApplyOutcome {
    /// A verify request passed; nothing is to be written.
    Verified,
    /// The profile is to be written, then the store committed.
    Write(ProfileWrite),
}

/// The validation rules over the entries in order: the first failure, if any.
pub open spec fn check_entries(monitors: Seq<Monitor>, reqs: Seq<MonitorApply>) -> Result<(), ApplyError>
    decreases reqs.len(),
{
    if reqs.len() == 0 {
        Ok(())
    } else {
        match check_entries(monitors, reqs.drop_last()) {
            Err(e) => Err(e),
            Ok(_) => validation(monitors, reqs.last()),
        }
    }
}

/// Every entry names a monitor of the store.
pub open spec fn all_resolved(monitors: Seq<Monitor>, reqs: Seq<MonitorApply>) -> bool {
    forall|i: int| 0 <= i < reqs.len() ==> (#[trigger] resolve_monitor(monitors, reqs[i])) is Some
}

/// The verdict on a request with the right serial: every entry is first
/// resolved to a monitor, then the entries are validated in order.
pub open spec fn request_check(monitors: Seq<Monitor>, reqs: Seq<MonitorApply>) -> Result<(), ApplyError> {
    if !all_resolved(monitors, reqs) {
        Err(ApplyError::MonitorNotFound)
    } else {
        check_entries(monitors, reqs)
    }
}

/// The identities of the monitors the entries resolve to, in request order.
pub open spec fn accepted_descriptions(monitors: Seq<Monitor>, reqs: Seq<MonitorApply>) -> Seq<DescriptionView> {
    reqs.map_values(|r: MonitorApply| description_view(resolve_monitor(monitors, r)->Some_0.description))
}

/// The file-name key of each accepted monitor, in request order.
pub open spec fn accepted_keys(monitors: Seq<Monitor>, reqs: Seq<MonitorApply>) -> Seq<Seq<char>> {
    reqs.map_values(|r: MonitorApply| underscored(description_name(resolve_monitor(monitors, r)->Some_0.description)))
}

/// The enable lines of the entries, in request order.
pub open spec fn enable_lines(monitors: Seq<Monitor>, reqs: Seq<MonitorApply>) -> Seq<char>
    decreases reqs.len(),
{
    if reqs.len() == 0 {
        Seq::empty()
    } else {
        enable_lines(monitors, reqs.drop_last()) + kanshi_line(reqs.last(), resolve_monitor(monitors, reqs.last())->Some_0)
    }
}

/// The store monitors, in store order, whose identity is not among `accepted`.
pub open spec fn disabled_monitors(monitors: Seq<Monitor>, accepted: Seq<DescriptionView>) -> Seq<Monitor>
    decreases monitors.len(),
{
    if monitors.len() == 0 {
        Seq::empty()
    } else if accepted.contains(description_view(monitors.last().description)) {
        disabled_monitors(monitors.drop_last(), accepted)
    } else {
        disabled_monitors(monitors.drop_last(), accepted).push(monitors.last())
    }
}

/// The disable lines of `ds`, in order.
pub open spec fn disable_lines(ds: Seq<Monitor>) -> Seq<char>
    decreases ds.len(),
{
    if ds.len() == 0 {
        Seq::empty()
    } else {
        disable_lines(ds.drop_last()) + disable_line(ds.last())
    }
}

/// The profile document for a request whose entries all resolve: an enable
/// line per entry, then a disable line per store monitor not among the
/// accepted ones.
pub open spec fn profile_text(monitors: Seq<Monitor>, reqs: Seq<MonitorApply>) -> Seq<char> {
    "profile {\n"@ + enable_lines(monitors, reqs) + disable_lines(
        disabled_monitors(monitors, accepted_descriptions(monitors, reqs)),
    ) + "}\n"@
}

/// `x` inserted into `s` before the first element it sorts before or equal to.
pub open spec fn insert_sorted(x: Seq<char>, s: Seq<Seq<char>>) -> Seq<Seq<char>>
    decreases s.len(),
{
    if s.len() == 0 {
        seq![x]
    } else if lex_le(x, s[0]) {
        seq![x] + s
    } else {
        seq![s[0]] + insert_sorted(x, s.drop_first())
    }
}

/// `s` in ascending lexicographic order.
pub open spec fn sort_names(s: Seq<Seq<char>>) -> Seq<Seq<char>>
    decreases s.len(),
{
    if s.len() == 0 {
        Seq::empty()
    } else {
        insert_sorted(s.last(), sort_names(s.drop_last()))
    }
}

/// The elements of `s` joined by `__`.
pub open spec fn join_names(s: Seq<Seq<char>>) -> Seq<char>
    decreases s.len(),
{
    if s.len() == 0 {
        Seq::empty()
    } else if s.len() == 1 {
        s[0]
    } else {
        join_names(s.drop_last()) + "__"@ + s.last()
    }
}

/// The profile's file name: the accepted monitors' display names, spaces
/// replaced by underscores, sorted, and joined by `__`.
pub open spec fn profile_name(monitors: Seq<Monitor>, reqs: Seq<MonitorApply>) -> Seq<char> {
    join_names(sort_names(accepted_keys(monitors, reqs)))
}

/// The characters of each string.
pub open spec fn views(v: Seq<String>) -> Seq<Seq<char>> {
    v.map_values(|s: String| s@)
}

/// The outcome an apply request with the store's serial has: the request
/// check's failure, or, when it passes, nothing to write for a verify
/// request and the profile for any other method.
pub open spec fn apply_spec(
    monitors: Seq<Monitor>,
    method: u32,
    reqs: Seq<MonitorApply>,
    r: Result<ApplyOutcome, ApplyError>,
) -> bool {
    match request_check(monitors, reqs) {
        Err(e) => r == Err::<ApplyOutcome, ApplyError>(e),
        Ok(_) => if method == 0 {
            r == Ok::<ApplyOutcome, ApplyError>(ApplyOutcome::Verified)
        } else {
            &&& r matches Ok(ApplyOutcome::Write(w))
            &&& w.name@ == profile_name(monitors, reqs)
            &&& w.contents@ == profile_text(monitors, reqs)
        },
    }
}

proof fn lemma_check_entries_prefix(monitors: Seq<Monitor>, reqs: Seq<MonitorApply>, i: int)
    requires
        0 <= i <= reqs.len(),
        check_entries(monitors, reqs.subrange(0, i)) is Err,
    ensures
        check_entries(monitors, reqs) == check_entries(monitors, reqs.subrange(0, i)),
    decreases reqs.len(),
{
    if i < reqs.len() {
        assert(reqs.drop_last().subrange(0, i) == reqs.subrange(0, i));
        lemma_check_entries_prefix(monitors, reqs.drop_last(), i);
    } else {
        assert(reqs.subrange(0, i) == reqs);
    }
}

proof fn lemma_insert_sorted_at(x: Seq<char>, s: Seq<Seq<char>>, j: int)
    requires
        0 <= j <= s.len(),
        forall|k: int| 0 <= k < j ==> !lex_le(x, #[trigger] s[k]),
        j == s.len() || lex_le(x, s[j]),
    ensures
        insert_sorted(x, s) == s.insert(j, x),
    decreases s.len(),
{
    if s.len() == 0 {
        assert(s.insert(j, x) =~= seq![x]);
    } else if j == 0 {
        assert(s.insert(j, x) =~= seq![x] + s);
    } else {
        let t = s.drop_first();
        assert forall|k: int| 0 <= k < j - 1 implies !lex_le(x, #[trigger] t[k]) by {
            assert(t[k] == s[k + 1]);
        }
        if j < s.len() {
            assert(t[j - 1] == s[j]);
        }
        lemma_insert_sorted_at(x, t, j - 1);
        assert(s.insert(j, x) =~= seq![s[0]] + t.insert(j - 1, x));
    }
}

/// The keys sorted in ascending lexicographic order.
fn sort_keys(keys: &Vec<String>) -> (r: Vec<String>)
    ensures
        views(r@) == sort_names(views(keys@)),
{
    let mut sorted: Vec<String> = Vec::new();
    let mut i: usize = 0;
    while i < keys.len()
        invariant
            i <= keys@.len(),
            views(sorted@) == sort_names(views(keys@.subrange(0, i as int))),
        decreases keys.len() - i,
    {
        let x = keys[i].clone();
        let mut j: usize = 0;
        while j < sorted.len() && !text_le(x.as_str(), sorted[j].as_str())
            invariant
                j <= sorted@.len(),
                forall|k: int| 0 <= k < j ==> !lex_le(x@, #[trigger] views(sorted@)[k]),
            decreases sorted.len() - j,
        {
            j = j + 1;
        }
        proof {
            lemma_insert_sorted_at(x@, views(sorted@), j as int);
            assert(views(keys@.subrange(0, i + 1)).drop_last() == views(keys@.subrange(0, i as int)));
            assert(views(keys@.subrange(0, i + 1)).last() == x@);
        }
        let ghost before = sorted@;
        sorted.insert(j, x);
        assert(views(sorted@) =~= views(before).insert(j as int, x@));
        i = i + 1;
    }
    assert(keys@.subrange(0, keys@.len() as int) == keys@);
    sorted
}

/// The keys joined by `__`.
fn join_keys(keys: &Vec<String>) -> (r: String)
    ensures
        r@ == join_names(views(keys@)),
{
    let mut s = String::new();
    let mut i: usize = 0;
    while i < keys.len()
        invariant
            i <= keys@.len(),
            s@ == join_names(views(keys@.subrange(0, i as int))),
        decreases keys.len() - i,
    {
        proof {
            assert(views(keys@.subrange(0, i + 1)).drop_last() == views(keys@.subrange(0, i as int)));
        }
        if i > 0 {
            s.append("__");
        }
        s.append(keys[i].as_str());
        proof {
            if i == 0 {
                assert(s@ =~= views(keys@.subrange(0, 1))[0]);
            }
        }
        i = i + 1;
    }
    assert(keys@.subrange(0, keys@.len() as int) == keys@);
    s
}

/// The characters of each monitor identity.
pub open spec fn description_views(v: Seq<MonitorDescription>) -> Seq<DescriptionView> {
    v.map_values(|a: MonitorDescription| description_view(a))
}

/// Whether `d` is one of `accepted`.
fn is_accepted(accepted: &Vec<MonitorDescription>, d: &MonitorDescription) -> (r: bool)
    ensures
        r == description_views(accepted@).contains(description_view(*d)),
{
    let ghost dv = description_views(accepted@);
    let mut i: usize = 0;
    while i < accepted.len()
        invariant
            i <= accepted@.len(),
            dv == description_views(accepted@),
            forall|k: int| 0 <= k < i ==> dv[k] != description_view(*d),
        decreases accepted.len() - i,
    {
        let a = &accepted[i];
        if a.connector == d.connector && a.vendor == d.vendor && a.product == d.product && a.serial
            == d.serial {
            assert(dv[i as int] == description_view(*d));
            return true;
        }
        i = i + 1;
    }
    false
}

impl DisplayManager {
    /// Handles an apply or verify request against the current snapshot,
    /// without changing it. `method` 0 verifies; any other method applies.
    /// A request passes when its serial is the store's, every entry names a
    /// monitor of the store, and every entry passes the validation rules;
    /// the first failure in that order is returned. A passing verify request
    /// yields `Verified`; a passing apply request yields the profile to write.
    pub fn apply_monitors_config(&self, serial: u32, method: u32, logical_monitors: &Vec<MonitorApply>) -> (r: Result<ApplyOutcome, ApplyError>)
        ensures
            serial != self.serial ==> r == Err::<ApplyOutcome, ApplyError>(ApplyError::StaleSerial),
            serial == self.serial ==> apply_spec(self.monitors@, method, logical_monitors@, r),
            method == 0 ==> !(r matches Ok(ApplyOutcome::Write(_))),
    {
        if serial != self.serial {
            return Err(ApplyError::StaleSerial);
        }
        let ghost ms = self.monitors@;
        let ghost reqs = logical_monitors@;
        // Resolve every entry first.
        let mut i: usize = 0;
        while i < logical_monitors.len()
            invariant
                i <= reqs.len(),
                ms == self.monitors@,
                reqs == logical_monitors@,
                serial == self.serial,
                forall|k: int| 0 <= k < i ==> (#[trigger] resolve_monitor(ms, reqs[k])) is Some,
            decreases logical_monitors.len() - i,
        {
            if logical_monitors[i].search_monitor(&self.monitors).is_none() {
                assert(!all_resolved(ms, reqs));
                return Err(ApplyError::MonitorNotFound);
            }
            i = i + 1;
        }
        assert(all_resolved(ms, reqs));
        // Then validate them in order, by the one rule set.
        let mut i: usize = 0;
        assert(reqs.subrange(0, 0) =~= Seq::<MonitorApply>::empty());
        while i < logical_monitors.len()
            invariant
                i <= reqs.len(),
                ms == self.monitors@,
                reqs == logical_monitors@,
                serial == self.serial,
                all_resolved(ms, reqs),
                check_entries(ms, reqs.subrange(0, i as int)) == Ok::<(), ApplyError>(()),
            decreases logical_monitors.len() - i,
        {
            let v = logical_monitors[i].verify(&self.monitors);
            assert(reqs.subrange(0, i + 1).drop_last() == reqs.subrange(0, i as int));
            assert(reqs.subrange(0, i + 1).last() == reqs[i as int]);
            match v {
                Err(e) => {
                    proof {
                        lemma_check_entries_prefix(ms, reqs, i + 1);
                    }
                    return Err(e);
                },
                Ok(_) => {},
            }
            i = i + 1;
        }
        assert(reqs.subrange(0, reqs.len() as int) == reqs);
        if method == 0 {
            return Ok(ApplyOutcome::Verified);
        }
        let w = self.build_profile(logical_monitors);
        Ok(ApplyOutcome::Write(w))
    }

    /// The profile and its file name for entries that all name monitors of the store.
    fn build_profile(&self, logical_monitors: &Vec<MonitorApply>) -> (r: ProfileWrite)
        requires
            all_resolved(self.monitors@, logical_monitors@),
        ensures
            r.name@ == profile_name(self.monitors@, logical_monitors@),
            r.contents@ == profile_text(self.monitors@, logical_monitors@),
    {
        let ghost ms = self.monitors@;
        let ghost reqs = logical_monitors@;
        let mut contents = String::new();
        contents.append("profile {\n");
        let ghost head = contents@;
        let mut active: Vec<MonitorDescription> = Vec::new();
        let mut keys: Vec<String> = Vec::new();
        let mut i: usize = 0;
        while i < logical_monitors.len()
            invariant
                i <= reqs.len(),
                ms == self.monitors@,
                reqs == logical_monitors@,
                all_resolved(ms, reqs),
                contents@ == head + enable_lines(ms, reqs.subrange(0, i as int)),
                description_views(active@) == accepted_descriptions(
                    ms,
                    reqs.subrange(0, i as int),
                ),
                views(keys@) == accepted_keys(ms, reqs.subrange(0, i as int)),
            decreases logical_monitors.len() - i,
        {
            let req = &logical_monitors[i];
            assert(resolve_monitor(ms, reqs[i as int]) is Some);
            let monitor = match req.search_monitor(&self.monitors) {
                Some(m) => m,
                None => {
                    assert(false);
                    return ProfileWrite { name: String::new(), contents };
                },
            };
            let ghost sub = reqs.subrange(0, i + 1);
            assert(sub.drop_last() == reqs.subrange(0, i as int));
            assert(sub.last() == *req);
            let ghost before_active = active@;
            let ghost before_keys = keys@;
            active.push(copy_description(&monitor.description));
            req.save_kanshi(&mut contents, monitor);
            let mut key = String::new();
            let dpy = name_of(&monitor.description);
            push_underscored(&mut key, dpy.as_str());
            keys.push(key);
            proof {
                assert(key@ =~= underscored(description_name(monitor.description)));
                assert(resolve_monitor(ms, sub[i as int]) == Some(*monitor));
                assert(description_views(active@) =~= description_views(before_active).push(
                    description_view(monitor.description),
                ));
                assert(views(keys@) =~= views(before_keys).push(key@));
                assert(accepted_descriptions(ms, sub) =~= accepted_descriptions(ms, reqs.subrange(0, i as int)).push(
                    description_view(monitor.description),
                ));
                assert(accepted_keys(ms, sub) =~= accepted_keys(ms, reqs.subrange(0, i as int)).push(key@));
                assert(contents@ =~= head + enable_lines(ms, sub));
                assert(description_views(active@) =~= accepted_descriptions(ms, sub));
                assert(views(keys@) =~= accepted_keys(ms, sub));
            }
            i = i + 1;
        }
        assert(reqs.subrange(0, reqs.len() as int) == reqs);
        let ghost acc = accepted_descriptions(ms, reqs);
        let ghost mid = contents@;
        let mut j: usize = 0;
        while j < self.monitors.len()
            invariant
                j <= ms.len(),
                ms == self.monitors@,
                acc == description_views(active@),
                contents@ == mid + disable_lines(disabled_monitors(ms.subrange(0, j as int), acc)),
            decreases self.monitors.len() - j,
        {
            let m = &self.monitors[j];
            let ghost sub = ms.subrange(0, j + 1);
            assert(sub.drop_last() == ms.subrange(0, j as int));
            assert(sub.last() == *m);
            let ghost before = contents@;
            if !is_accepted(&active, &m.description) {
                contents.append("\toutput \"");
                let dpy = m.get_dpy_name();
                contents.append(dpy.as_str());
                contents.append("\" disable\n");
                assert(contents@ =~= before + disable_line(*m));
                proof {
                    let prev = disabled_monitors(ms.subrange(0, j as int), acc);
                    assert(disabled_monitors(sub, acc) == prev.push(*m));
                    assert(prev.push(*m).drop_last() == prev);
                    assert(disable_lines(prev.push(*m)) == disable_lines(prev) + disable_line(*m));
                }
                assert(contents@ =~= mid + disable_lines(disabled_monitors(sub, acc)));
            }
            j = j + 1;
        }
        assert(ms.subrange(0, ms.len() as int) == ms);
        contents.append("}\n");
        let sorted = sort_keys(&keys);
        let name = join_keys(&sorted);
        assert(contents@ =~= profile_text(ms, reqs));
        ProfileWrite { name, contents }
    }
}

} // verus!

verus! {

impl DisplayManager {
    /// Completes an apply request after its profile write was attempted.
    /// When the write failed, the request fails with `PersistenceFailure` and
    /// the store stays as it was. Otherwise the store takes the client's
    /// properties, the refreshed monitor lists when the compositor could be
    /// queried (the old ones when not), and the next serial; the caller then
    /// emits one change notification.
    pub fn commit_apply(
        &mut self,
        properties: DisplayManagerProperties,
        written: Result<(), String>,
        refreshed: Option<MonitorInfo>,
    ) -> (r: Result<(), ApplyError>)
        ensures
            match written {
                Err(msg) => {
                    &&& r == Err::<(), ApplyError>(ApplyError::PersistenceFailure(msg))
                    &&& *final(self) == *old(self)
                },
                Ok(_) => {
                    &&& r is Ok
                    &&& final(self).properties == properties
                    &&& final(self).serial == next_serial(old(self).serial)
                    &&& match refreshed {
                        Some(info) => {
                            &&& final(self).monitors == info.monitors
                            &&& final(self).logical_monitors == info.logical_monitors
                        },
                        None => {
                            &&& final(self).monitors == old(self).monitors
                            &&& final(self).logical_monitors == old(self).logical_monitors
                        },
                    }
                },
            },
            old(self).well_formed() && (refreshed matches Some(i) ==> snapshot_consistent(
                i.monitors@,
                i.logical_monitors@,
            )) ==> final(self).well_formed(),
    {
        match written {
            Err(msg) => Err(ApplyError::PersistenceFailure(msg)),
            Ok(_) => {
                self.properties = properties;
                if let Some(info) = refreshed {
                    self.monitors = info.monitors;
                    self.logical_monitors = info.logical_monitors;
                }
                self.serial = if self.serial == u32::MAX {
                    0
                } else {
                    self.serial + 1
                };
                Ok(())
            },
        }
    }
}

} // verus!

verus! {

/// A profile holds a disable line for exactly the store monitors whose
/// identity is not among the accepted monitors: the disabled set is the
/// store's monitors minus the accepted ones.
pub proof fn lemma_disabled_exactly(monitors: Seq<Monitor>, reqs: Seq<MonitorApply>, m: Monitor)
    ensures
        disabled_monitors(monitors, accepted_descriptions(monitors, reqs)).contains(m) <==> (
        monitors.contains(m) && !accepted_descriptions(monitors, reqs).contains(
            description_view(m.description),
        )),
{
    lemma_disabled_members(monitors, accepted_descriptions(monitors, reqs), m);
}

proof fn lemma_disabled_members(monitors: Seq<Monitor>, accepted: Seq<DescriptionView>, m: Monitor)
    ensures
        disabled_monitors(monitors, accepted).contains(m) <==> (monitors.contains(m)
            && !accepted.contains(description_view(m.description))),
    decreases monitors.len(),
{
    if monitors.len() > 0 {
        let prev = monitors.drop_last();
        let last = monitors.last();
        lemma_disabled_members(prev, accepted, m);
        assert(monitors == prev.push(last));
        let d = disabled_monitors(prev, accepted);
        if monitors.contains(m) {
            let k = choose|k: int| 0 <= k < monitors.len() && monitors[k] == m;
            if k < monitors.len() - 1 {
                assert(prev[k] == m);
            }
        }
        if prev.contains(m) {
            let k = choose|k: int| 0 <= k < prev.len() && prev[k] == m;
            assert(monitors[k] == m);
        }
        if !accepted.contains(description_view(last.description)) {
            assert(d.push(last)[d.len() as int] == last);
            if d.push(last).contains(m) {
                let k = choose|k: int| 0 <= k < d.len() + 1 && d.push(last)[k] == m;
                if k < d.len() {
                    assert(d[k] == m);
                }
            }
            if d.contains(m) {
                let k = choose|k: int| 0 <= k < d.len() && d[k] == m;
                assert(d.push(last)[k] == m);
            }
        }
    }
}

/// Applying the same valid request twice in a row, with the serial
/// refreshed in between and the store's monitors unchanged, writes the same
/// profile under the same name.
pub proof fn lemma_apply_idempotent(
    before: DisplayManager,
    after: DisplayManager,
    method: u32,
    reqs: Seq<MonitorApply>,
    first: Result<ApplyOutcome, ApplyError>,
    second: Result<ApplyOutcome, ApplyError>,
)
    requires
        method != 0,
        after.monitors@ == before.monitors@,
        request_check(before.monitors@, reqs) is Ok,
        apply_spec(before.monitors@, method, reqs, first),
        apply_spec(after.monitors@, method, reqs, second),
    ensures
        first matches Ok(ApplyOutcome::Write(w1)) && second matches Ok(ApplyOutcome::Write(w2))
            && w1.contents@ == w2.contents@ && w1.name@ == w2.name@,
{
}

} // verus!

verus! {

proof fn lemma_insert_sorted_shape(x: Seq<char>, s: Seq<Seq<char>>)
    ensures
        exists|j: int|
            0 <= j <= s.len() && insert_sorted(x, s) == s.insert(j, x) && (forall|k: int|
                0 <= k < j ==> !lex_le(x, #[trigger] s[k])) && (j == s.len() || lex_le(x, s[j])),
    decreases s.len(),
{
    if s.len() == 0 {
        assert(insert_sorted(x, s) == s.insert(0, x));
    } else if lex_le(x, s[0]) {
        assert(insert_sorted(x, s) =~= s.insert(0, x));
    } else {
        let t = s.drop_first();
        lemma_insert_sorted_shape(x, t);
        let j = choose|j: int|
            0 <= j <= t.len() && insert_sorted(x, t) == t.insert(j, x) && (forall|k: int|
                0 <= k < j ==> !lex_le(x, #[trigger] t[k])) && (j == t.len() || lex_le(x, t[j]));
        assert(insert_sorted(x, s) =~= s.insert(j + 1, x));
        assert forall|k: int| 0 <= k < j + 1 implies !lex_le(x, #[trigger] s[k]) by {
            if k > 0 {
                assert(s[k] == t[k - 1]);
            }
        }
        if j < t.len() {
            assert(s[j + 1] == t[j]);
        }
    }
}

proof fn lemma_insert_keeps_sorted(x: Seq<char>, r: Seq<Seq<char>>, j: int)
    requires
        0 <= j <= r.len(),
        sorted_by(r, |a: Seq<char>, b: Seq<char>| lex_le(a, b)),
        forall|k: int| 0 <= k < j ==> !lex_le(x, #[trigger] r[k]),
        j == r.len() || lex_le(x, r[j]),
    ensures
        sorted_by(r.insert(j, x), |a: Seq<char>, b: Seq<char>| lex_le(a, b)),
{
    let u = r.insert(j, x);
    let leq = |a: Seq<char>, b: Seq<char>| lex_le(a, b);
    assert forall|i: int, i2: int| 0 <= i < i2 < u.len() implies lex_le(u[i], u[i2]) by {
        if i2 < j {
            assert(leq(r[i], r[i2]));
        } else if i < j && i2 == j {
            lemma_lex_le_total(x, r[i]);
        } else if i < j {
            assert(leq(r[i], r[i2 - 1]));
        } else if i == j {
            if j < i2 - 1 {
                assert(leq(r[j], r[i2 - 1]));
                lemma_lex_le_transitive(x, r[j], r[i2 - 1]);
            }
        } else {
            assert(leq(r[i - 1], r[i2 - 1]));
        }
    }
}

proof fn lemma_insert_multiset<A>(r: Seq<A>, j: int, x: A)
    requires
        0 <= j <= r.len(),
    ensures
        r.insert(j, x).to_multiset() =~= r.to_multiset().insert(x),
{
    broadcast use vstd::seq_lib::group_to_multiset_ensures;
    broadcast use vstd::multiset::group_multiset_axioms;

    let u = r.insert(j, x);
    assert(u.remove(j) =~= r);
    assert(u[j] == x);
    assert(r.to_multiset() =~= u.to_multiset().remove(x));
    assert(u.contains(x));
    assert(u.to_multiset().count(x) > 0);
}

/// `sort_names` orders its input and keeps every element.
pub proof fn lemma_sort_names_sorted(s: Seq<Seq<char>>)
    ensures
        sorted_by(sort_names(s), |a: Seq<char>, b: Seq<char>| lex_le(a, b)),
        sort_names(s).to_multiset() =~= s.to_multiset(),
    decreases s.len(),
{
    broadcast use vstd::seq_lib::group_to_multiset_ensures;

    if s.len() > 0 {
        let r = sort_names(s.drop_last());
        lemma_sort_names_sorted(s.drop_last());
        let x = s.last();
        lemma_insert_sorted_shape(x, r);
        let j = choose|j: int|
            0 <= j <= r.len() && insert_sorted(x, r) == r.insert(j, x) && (forall|k: int|
                0 <= k < j ==> !lex_le(x, #[trigger] r[k])) && (j == r.len() || lex_le(x, r[j]));
        lemma_insert_keeps_sorted(x, r, j);
        lemma_insert_multiset(r, j, x);
        assert(s =~= s.drop_last().push(x));
    }
}

proof fn lemma_map_values_multiset<A, B>(s: Seq<A>, t: Seq<A>, f: spec_fn(A) -> B)
    requires
        s.to_multiset() == t.to_multiset(),
    ensures
        s.map_values(f).to_multiset() == t.map_values(f).to_multiset(),
    decreases s.len(),
{
    broadcast use vstd::seq_lib::group_to_multiset_ensures;
    broadcast use vstd::multiset::group_multiset_axioms;

    if s.len() == 0 {
        assert(s.to_multiset().len() == 0);
        assert(t.to_multiset().len() == t.len());
        assert(s.map_values(f) =~= t.map_values(f));
    } else {
        let x = s.last();
        let rest = s.drop_last();
        assert(s =~= rest.push(x));
        assert(s.to_multiset().count(x) > 0);
        assert(t.contains(x));
        let k = choose|k: int| 0 <= k < t.len() && t[k] == x;
        let t2 = t.remove(k);
        assert(t2.to_multiset() =~= rest.to_multiset());
        lemma_map_values_multiset(rest, t2, f);
        assert(s.map_values(f) =~= rest.map_values(f).push(f(x)));
        assert(t.map_values(f).remove(k) =~= t2.map_values(f));
        assert(t.map_values(f)[k] == f(x));
        assert(t.map_values(f).to_multiset().count(f(x)) > 0) by {
            assert(t.map_values(f).contains(f(x)));
        }
        assert(t.map_values(f).to_multiset() =~= t2.map_values(f).to_multiset().insert(f(x)));
    }
}

/// The profile's file name depends only on which entries a request holds,
/// not on their order: the same monitors always land in the same file.
pub proof fn lemma_profile_name_order_free(
    monitors: Seq<Monitor>,
    reqs: Seq<MonitorApply>,
    reordered: Seq<MonitorApply>,
)
    requires
        reordered.to_multiset() == reqs.to_multiset(),
    ensures
        profile_name(monitors, reordered) == profile_name(monitors, reqs),
{
    let f = |r: MonitorApply| underscored(description_name(resolve_monitor(monitors, r)->Some_0.description));
    lemma_map_values_multiset(reordered, reqs, f);
    assert(accepted_keys(monitors, reqs) == reqs.map_values(f));
    assert(accepted_keys(monitors, reordered) == reordered.map_values(f));
    lemma_sort_names_sorted(accepted_keys(monitors, reqs));
    lemma_sort_names_sorted(accepted_keys(monitors, reordered));
    lemma_lex_le_total_ordering();
    vstd::seq_lib::lemma_sorted_unique(
        sort_names(accepted_keys(monitors, reordered)),
        sort_names(accepted_keys(monitors, reqs)),
        |a: Seq<char>, b: Seq<char>| lex_le(a, b),
    );
}

} // verus!
