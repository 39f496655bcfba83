use regolith_displayd::modes::{ModeInfo, Modes};
use regolith_displayd::monitor::{
    LogicalMonitor, Monitor, MonitorApply, MonitorProperties, MonitorSelection, MonitorTransform,
    OutputInfo, OutputRect,
};
use regolith_displayd::profile::ApplyOutcome;
use regolith_displayd::watch::ChangeWatcher;
use regolith_displayd::{
    ApplyError, DisplayManager, DisplayManagerProperties, KanshiPaths, MonitorInfo, ServerError,
};

fn mode(width: i32, height: i32, refresh: i32) -> ModeInfo {
    ModeInfo { width, height, refresh }
}

fn output(name: &str, make: &str, model: &str, serial: &str, modes: Vec<ModeInfo>) -> OutputInfo {
    let current = modes.first().copied();
    OutputInfo {
        name: name.to_string(),
        make: make.to_string(),
        model: model.to_string(),
        serial: serial.to_string(),
        active: true,
        primary: false,
        scale: Some(1000),
        transform: Some("normal".to_string()),
        rect: OutputRect { x: 0, y: 0, width: 600, height: 340 },
        modes,
        current_mode: current,
    }
}

fn empty_props() -> MonitorProperties {
    MonitorProperties {
        width: None,
        height: None,
        underscanning: None,
        builtin: None,
        max_size: None,
        name: None,
    }
}

fn request(connector: &str, mode_id: &str, x: i32, y: i32, scale: u32, transform: u32) -> MonitorApply {
    MonitorApply {
        x_pos: x,
        y_pos: y,
        scale,
        transform,
        primary: false,
        monitors: vec![MonitorSelection {
            connector: connector.to_string(),
            mode: mode_id.to_string(),
            properties: empty_props(),
        }],
    }
}

fn store(outputs: &Vec<OutputInfo>) -> DisplayManager {
    let info = DisplayManager::get_monitor_info(outputs);
    let mut manager = DisplayManager::new();
    manager.monitors = info.monitors;
    manager.logical_monitors = info.logical_monitors;
    manager
}

fn two_monitor_store() -> DisplayManager {
    store(&vec![
        output("DP-1", "Dell", "U2720Q", "A1", vec![mode(1920, 1080, 60000)]),
        output("HDMI-A-1", "LG", "Ultra HD", "B2", vec![mode(3840, 2160, 30000)]),
    ])
}

fn written(r: Result<ApplyOutcome, ApplyError>) -> (String, String) {
    match r {
        Ok(ApplyOutcome::Write(w)) => (w.name, w.contents),
        other => panic!("expected a profile to write, got {:?}", other),
    }
}

#[test]
fn transform_names_follow_compositor_vocabulary() {
    assert_eq!(MonitorTransform::Normal.to_sway(), "normal");
    assert_eq!(MonitorTransform::Left.to_sway(), "270");
    assert_eq!(MonitorTransform::Down.to_sway(), "180");
    assert_eq!(MonitorTransform::Right.to_sway(), "90");
    assert_eq!(MonitorTransform::Flipped.to_sway(), "flipped");
    assert_eq!(MonitorTransform::FlippedLeft.to_sway(), "flipped-270");
    assert_eq!(MonitorTransform::FlippedDown.to_sway(), "flipped-180");
    assert_eq!(MonitorTransform::FlippedRight.to_sway(), "flipped-90");
}

#[test]
fn transform_round_trips_both_ways() {
    for code in 0u32..8 {
        let t = MonitorTransform::from_u32(code).unwrap();
        assert_eq!(t.to_u32(), code);
        let word = t.to_sway().to_string();
        assert_eq!(MonitorTransform::from_sway(&Some(word)), t);
    }
    assert_eq!(MonitorTransform::from_u32(8), None);
    assert_eq!(MonitorTransform::from_u32(u32::MAX), None);
    assert_eq!(MonitorTransform::from_sway(&None), MonitorTransform::Normal);
    assert_eq!(MonitorTransform::from_sway(&Some("sideways".to_string())), MonitorTransform::Normal);
}

#[test]
fn mode_ids_are_canonical() {
    assert_eq!(Modes::mode_id(1920, 1080, 60000), "1920x1080@60Hz");
    assert_eq!(Modes::mode_id(1920, 1080, 59940), "1920x1080@59.94Hz");
    assert_eq!(Modes::mode_id(2560, 1440, 59951), "2560x1440@59.951Hz");
    assert_eq!(Modes::mode_id(1280, 720, 59500), "1280x720@59.5Hz");
    assert_eq!(Modes::mode_id(3840, 2160, 144000), "3840x2160@144Hz");
    assert_eq!(Modes::mode_id(800, 600, 0), "800x600@0Hz");
}

#[test]
fn modes_know_their_scales_and_current_flag() {
    let out = output("DP-1", "Dell", "U2720Q", "A1", vec![mode(1920, 1080, 60000), mode(1280, 720, 60000)]);
    let current = Modes::new(&out, &out.modes[0]);
    let other = Modes::new(&out, &out.modes[1]);
    assert!(current.current());
    assert!(!other.current());
    assert_eq!(current.get_id(), "1920x1080@60Hz");
    assert_eq!(current.get_modestr(), "1920x1080@60Hz");
    assert!(current.is_valid_scale(1000));
    assert!(current.is_valid_scale(2000));
    assert!(!current.is_valid_scale(1500));
    assert!(!current.is_valid_scale(3000));
    assert!(Modes::is_current_mode(&mode(1, 2, 3), &mode(1, 2, 3)));
    assert!(!Modes::is_current_mode(&mode(1, 2, 3), &mode(1, 2, 4)));
}

#[test]
fn monitor_is_built_from_output() {
    let out = output("eDP-1", "BOE", "0x095F", "", vec![mode(2256, 1504, 59999)]);
    let m = Monitor::new(&out);
    assert_eq!(m.get_dpy_name(), "BOE 0x095F ");
    assert_eq!(m.get_current_mode(), "2256x1504@59.999Hz");
    assert_eq!(m.properties.builtin, Some(true));
    assert_eq!(m.properties.name, Some("BOE 0x095F ".to_string()));
    assert_eq!(m.properties.width, Some(600));
    assert!(m.search_modes("2256x1504@59.999Hz").is_some());
    assert!(m.search_modes("2256x1504@60Hz").is_none());

    let external = Monitor::new(&output("DP-2", "Dell", "P2419H", "X", vec![]));
    assert_eq!(external.properties.builtin, Some(false));
    assert_eq!(external.get_current_mode(), "Unknown");
}

#[test]
fn logical_monitor_is_built_from_output() {
    let mut out = output("DP-1", "Dell", "U2720Q", "A1", vec![mode(1920, 1080, 60000)]);
    out.scale = None;
    out.transform = Some("90".to_string());
    out.rect = OutputRect { x: 1920, y: -10, width: 1080, height: 1920 };
    let l = LogicalMonitor::new(&out);
    assert_eq!(l.scale, 1000);
    assert_eq!(l.transform, 3);
    assert_eq!(l.x_pos, 1920);
    assert_eq!(l.y_pos, -10);
    assert_eq!(l.get_dpy_name(), "Dell U2720Q A1");
}

#[test]
fn monitor_info_lists_only_active_outputs_as_logical() {
    let mut off = output("HDMI-A-1", "LG", "Ultra HD", "B2", vec![mode(3840, 2160, 30000)]);
    off.active = false;
    let outputs = vec![output("DP-1", "Dell", "U2720Q", "A1", vec![mode(1920, 1080, 60000)]), off];
    let info = DisplayManager::get_monitor_info(&outputs);
    assert_eq!(info.monitors.len(), 2);
    assert_eq!(info.logical_monitors.len(), 1);
    assert_eq!(info.logical_monitors[0].monitors[0].connector, "DP-1");
}

#[test]
fn new_store_is_empty_with_default_properties() {
    let m = DisplayManager::new();
    assert_eq!(m.serial, 0);
    assert!(m.monitors.is_empty());
    assert!(m.logical_monitors.is_empty());
    let p = DisplayManagerProperties::new();
    assert_eq!(m.properties, p);
    assert_eq!(p.layout, Some(1));
    assert_eq!(p.support_layout_change, Some(true));
    assert_eq!(p.global_scale, Some(false));
    assert_eq!(p.legacy_scale_factor, Some(1));
}

#[test]
fn stale_serial_is_refused_and_store_untouched() {
    let manager = two_monitor_store();
    let reqs = vec![request("DP-1", "1920x1080@60Hz", 0, 0, 1000, 0)];
    for method in 0u32..3 {
        let r = manager.apply_monitors_config(7, method, &reqs);
        assert!(matches!(r, Err(ApplyError::StaleSerial)));
    }
    assert_eq!(manager.serial, 0);
    assert_eq!(manager.monitors.len(), 2);
}

#[test]
fn verify_writes_nothing() {
    let manager = two_monitor_store();
    let reqs = vec![request("DP-1", "1920x1080@60Hz", 0, 0, 1000, 0)];
    let r = manager.apply_monitors_config(0, 0, &reqs);
    assert!(matches!(r, Ok(ApplyOutcome::Verified)));
    let bad = vec![request("DP-1", "1920x1080@60Hz", 0, 0, 1500, 0)];
    assert!(matches!(manager.apply_monitors_config(0, 0, &bad), Err(ApplyError::InvalidScale)));
}

#[test]
fn single_monitor_profile_line() {
    let manager = store(&vec![output("DP-1", "Dell", "U2720Q", "A1", vec![mode(1920, 1080, 60000)])]);
    let reqs = vec![request("DP-1", "1920x1080@60Hz", 0, 0, 1000, 0)];
    let (name, contents) = written(manager.apply_monitors_config(0, 1, &reqs));
    assert_eq!(name, "Dell_U2720Q_A1");
    assert_eq!(
        contents,
        "profile {\n\toutput \"Dell U2720Q A1\" mode 1920x1080@60Hz position 0,0 transform normal scale 1 enable\n}\n"
    );
    assert!(!contents.contains("disable"));
}

#[test]
fn unrequested_monitor_is_disabled() {
    let manager = two_monitor_store();
    let reqs = vec![request("DP-1", "1920x1080@60Hz", 0, 0, 1000, 0)];
    let (name, contents) = written(manager.apply_monitors_config(0, 2, &reqs));
    assert_eq!(name, "Dell_U2720Q_A1");
    assert_eq!(
        contents,
        "profile {\n\toutput \"Dell U2720Q A1\" mode 1920x1080@60Hz position 0,0 transform normal scale 1 enable\n\toutput \"LG Ultra HD B2\" disable\n}\n"
    );
}

#[test]
fn unsupported_scale_is_refused() {
    let manager = two_monitor_store();
    let reqs = vec![request("DP-1", "1920x1080@60Hz", 0, 0, 3000, 0)];
    for method in 0u32..3 {
        assert!(matches!(manager.apply_monitors_config(0, method, &reqs), Err(ApplyError::InvalidScale)));
    }
    assert_eq!(manager.serial, 0);
    assert_eq!(manager.properties, DisplayManagerProperties::new());
}

#[test]
fn unknown_connector_is_refused() {
    let manager = two_monitor_store();
    let reqs = vec![request("DP-9", "1920x1080@60Hz", 0, 0, 1000, 0)];
    assert!(matches!(manager.apply_monitors_config(0, 1, &reqs), Err(ApplyError::MonitorNotFound)));
    let no_monitor = vec![MonitorApply {
        x_pos: 0,
        y_pos: 0,
        scale: 1000,
        transform: 0,
        primary: false,
        monitors: vec![],
    }];
    assert!(matches!(manager.apply_monitors_config(0, 0, &no_monitor), Err(ApplyError::MonitorNotFound)));
}

#[test]
fn unresolved_entries_are_reported_before_invalid_ones() {
    let manager = two_monitor_store();
    let reqs = vec![
        request("DP-1", "640x480@60Hz", 0, 0, 1000, 0),
        request("DP-9", "1920x1080@60Hz", 0, 0, 1000, 0),
    ];
    assert!(matches!(manager.apply_monitors_config(0, 1, &reqs), Err(ApplyError::MonitorNotFound)));
}

#[test]
fn first_invalid_entry_decides() {
    let manager = two_monitor_store();
    let reqs = vec![
        request("DP-1", "1920x1080@60Hz", 0, 0, 1000, 9),
        request("HDMI-A-1", "640x480@60Hz", 1920, 0, 1000, 0),
    ];
    assert!(matches!(manager.apply_monitors_config(0, 1, &reqs), Err(ApplyError::InvalidTransform)));
}

#[test]
fn unknown_mode_is_refused() {
    let manager = two_monitor_store();
    let reqs = vec![request("DP-1", "1920x1080@59.94Hz", 0, 0, 1000, 0)];
    assert!(matches!(manager.apply_monitors_config(0, 0, &reqs), Err(ApplyError::InvalidMode)));
}

#[test]
fn unknown_transform_is_refused() {
    let manager = two_monitor_store();
    let reqs = vec![request("DP-1", "1920x1080@60Hz", 0, 0, 1000, 8)];
    assert!(matches!(manager.apply_monitors_config(0, 2, &reqs), Err(ApplyError::InvalidTransform)));
}

#[test]
fn profile_name_ignores_request_order() {
    let manager = two_monitor_store();
    let forward = vec![
        request("DP-1", "1920x1080@60Hz", 0, 0, 1000, 0),
        request("HDMI-A-1", "3840x2160@30Hz", 1920, 0, 2000, 1),
    ];
    let backward = vec![forward[1].clone(), forward[0].clone()];
    let (n1, c1) = written(manager.apply_monitors_config(0, 1, &forward));
    let (n2, c2) = written(manager.apply_monitors_config(0, 1, &backward));
    assert_eq!(n1, "Dell_U2720Q_A1__LG_Ultra_HD_B2");
    assert_eq!(n1, n2);
    assert_eq!(
        c1,
        "profile {\n\toutput \"Dell U2720Q A1\" mode 1920x1080@60Hz position 0,0 transform normal scale 1 enable\n\toutput \"LG Ultra HD B2\" mode 3840x2160@30Hz position 1920,0 transform 270 scale 2 enable\n}\n"
    );
    assert_ne!(c1, c2);
}

#[test]
fn profile_renders_negative_positions_and_flips() {
    let manager = two_monitor_store();
    let reqs = vec![request("HDMI-A-1", "3840x2160@30Hz", -3840, -120, 1000, 7)];
    let (_, contents) = written(manager.apply_monitors_config(0, 1, &reqs));
    assert!(contents.contains(
        "\toutput \"LG Ultra HD B2\" mode 3840x2160@30Hz position -3840,-120 transform flipped-90 scale 1 enable\n"
    ));
    assert!(contents.contains("\toutput \"Dell U2720Q A1\" disable\n"));
}

#[test]
fn empty_request_disables_everything() {
    let manager = two_monitor_store();
    let (name, contents) = written(manager.apply_monitors_config(0, 1, &vec![]));
    assert_eq!(name, "");
    assert_eq!(
        contents,
        "profile {\n\toutput \"Dell U2720Q A1\" disable\n\toutput \"LG Ultra HD B2\" disable\n}\n"
    );
}

#[test]
fn applying_twice_writes_the_same_profile() {
    let mut manager = two_monitor_store();
    let reqs = vec![request("DP-1", "1920x1080@60Hz", 10, 20, 2000, 2)];
    let (n1, c1) = written(manager.apply_monitors_config(0, 1, &reqs));
    assert!(manager.commit_apply(DisplayManagerProperties::new(), Ok(()), None).is_ok());
    assert_eq!(manager.serial, 1);
    assert!(matches!(manager.apply_monitors_config(0, 1, &reqs), Err(ApplyError::StaleSerial)));
    let (n2, c2) = written(manager.apply_monitors_config(1, 1, &reqs));
    assert_eq!(n1, n2);
    assert_eq!(c1, c2);
}

#[test]
fn failed_write_leaves_store_unchanged() {
    let mut manager = two_monitor_store();
    let props = DisplayManagerProperties {
        layout: Some(2),
        support_layout_change: Some(false),
        global_scale: Some(true),
        legacy_scale_factor: Some(2),
    };
    let r = manager.commit_apply(props, Err("disk full".to_string()), None);
    assert_eq!(r, Err(ApplyError::PersistenceFailure("disk full".to_string())));
    assert_eq!(manager.serial, 0);
    assert_eq!(manager.properties, DisplayManagerProperties::new());

    let refreshed = DisplayManager::get_monitor_info(&vec![output(
        "DP-1",
        "Dell",
        "U2720Q",
        "A1",
        vec![mode(1920, 1080, 60000)],
    )]);
    assert!(manager.commit_apply(props, Ok(()), Some(refreshed)).is_ok());
    assert_eq!(manager.serial, 1);
    assert_eq!(manager.properties, props);
    assert_eq!(manager.monitors.len(), 1);
}

#[test]
fn serial_wraps_around() {
    let mut manager = DisplayManager::new();
    manager.serial = u32::MAX;
    assert!(manager.commit_apply(DisplayManagerProperties::new(), Ok(()), None).is_ok());
    assert_eq!(manager.serial, 0);
}

fn info_of(outputs: Vec<OutputInfo>) -> MonitorInfo {
    DisplayManager::get_monitor_info(&outputs)
}

#[test]
fn watcher_signals_only_on_changes() {
    let mut manager = DisplayManager::new();
    let mut watcher = ChangeWatcher::new();
    let a = output("DP-1", "Dell", "U2720Q", "A1", vec![mode(1920, 1080, 60000), mode(1280, 720, 60000)]);

    assert!(manager.detect_changes(&mut watcher, Some(info_of(vec![a.clone()]))));
    assert_eq!(manager.serial, 1);
    assert_eq!(manager.monitors.len(), 1);

    assert!(!manager.detect_changes(&mut watcher, Some(info_of(vec![a.clone()]))));
    assert_eq!(manager.serial, 1);

    assert!(!manager.detect_changes(&mut watcher, None));
    assert_eq!(manager.serial, 1);
    assert_eq!(manager.monitors.len(), 1);

    let mut moved = a.clone();
    moved.rect.x = 100;
    assert!(manager.detect_changes(&mut watcher, Some(info_of(vec![moved.clone()]))));
    assert_eq!(manager.serial, 2);

    let mut other_mode = moved.clone();
    other_mode.current_mode = Some(mode(1280, 720, 60000));
    assert!(manager.detect_changes(&mut watcher, Some(info_of(vec![other_mode.clone()]))));
    assert_eq!(manager.serial, 3);

    let mut primary = other_mode.clone();
    primary.primary = true;
    assert!(!manager.detect_changes(&mut watcher, Some(info_of(vec![primary]))));
    assert_eq!(manager.serial, 3);
}

#[test]
fn watcher_ignores_a_removed_monitor() {
    let mut manager = DisplayManager::new();
    let mut watcher = ChangeWatcher::new();
    let a = output("DP-1", "Dell", "U2720Q", "A1", vec![mode(1920, 1080, 60000)]);
    let b = output("HDMI-A-1", "LG", "Ultra HD", "B2", vec![mode(3840, 2160, 30000)]);
    assert!(manager.detect_changes(&mut watcher, Some(info_of(vec![a.clone(), b]))));
    assert!(!manager.detect_changes(&mut watcher, Some(info_of(vec![a]))));
    assert_eq!(manager.monitors.len(), 2);
}

#[test]
fn watcher_on_empty_query_stays_quiet() {
    let mut manager = DisplayManager::new();
    let mut watcher = ChangeWatcher::new();
    assert!(!manager.detect_changes(&mut watcher, Some(info_of(vec![]))));
    assert_eq!(manager.serial, 0);
}

#[test]
fn search_helpers_find_by_connector() {
    let manager = two_monitor_store();
    let req = request("HDMI-A-1", "3840x2160@30Hz", 0, 0, 1000, 0);
    let m = req.search_monitor(&manager.monitors).unwrap();
    assert_eq!(m.description.vendor, "LG");
    let l = req.search_logical_monitor(&manager.logical_monitors).unwrap();
    assert_eq!(l.monitors[0].connector, "HDMI-A-1");
    let missing = request("DP-3", "3840x2160@30Hz", 0, 0, 1000, 0);
    assert!(missing.search_monitor(&manager.monitors).is_none());
    assert!(missing.search_logical_monitor(&manager.logical_monitors).is_none());
    assert_eq!(req.verify(&manager.monitors), Ok(()));
}

#[test]
fn save_kanshi_skips_unknown_mode() {
    let manager = two_monitor_store();
    let mut text = String::new();
    request("DP-1", "1x1@1Hz", 0, 0, 1000, 0).save_kanshi(&mut text, &manager.monitors[0]);
    assert_eq!(text, "");
    request("DP-1", "1920x1080@60Hz", 5, 6, 1250, 4).save_kanshi(&mut text, &manager.monitors[0]);
    assert_eq!(
        text,
        "\toutput \"Dell U2720Q A1\" mode 1920x1080@60Hz position 5,6 transform flipped scale 1.25 enable\n"
    );
}

#[test]
fn kanshi_paths_join_base() {
    let p = KanshiPaths::new("/home/u/.config/regolith3/kanshi");
    assert_eq!(p.profiles, "/home/u/.config/regolith3/kanshi/profiles");
    assert_eq!(p.config, "/home/u/.config/regolith3/kanshi/config");
    let q = KanshiPaths::new("/tmp/k/");
    assert_eq!(q.profiles, "/tmp/k/profiles");
    assert_eq!(KanshiPaths::default_base("/home/u"), "/home/u/.config/regolith3/kanshi");
}

#[test]
fn server_error_keeps_description() {
    let e = ServerError::_produce_error("no outputs");
    assert_eq!(e.description(), "no outputs");
}
