use lapctl::commands::display::{
    get_active_display_info, refresh_rate_report, select_refresh_mode, sort_modes, ConfigEvent,
    DisplayState, HeadEvent, ManagerEvent, ModeEvent, WlMode,
};

fn mode(state: &mut DisplayState, head: u32, id: u32, w: i32, h: i32, r: i32, preferred: bool) {
    state.on_head_event(head, HeadEvent::Mode { mode: id });
    state.on_mode_event(id, ModeEvent::Size { width: w, height: h });
    state.on_mode_event(id, ModeEvent::Refresh { refresh: r });
    if preferred {
        state.on_mode_event(id, ModeEvent::Preferred);
    }
}

fn laptop() -> DisplayState {
    let mut s = DisplayState::new();
    s.on_manager_event(ManagerEvent::Head { head: 10 });
    s.on_head_event(10, HeadEvent::Name { name: "eDP-1".to_string() });
    s.on_head_event(10, HeadEvent::Description { description: "Panel".to_string() });
    s.on_head_event(10, HeadEvent::Make { make: "BOE".to_string() });
    s.on_head_event(10, HeadEvent::Model { model: "0x0ad1".to_string() });
    mode(&mut s, 10, 20, 1920, 1080, 60000, false);
    mode(&mut s, 10, 21, 1920, 1080, 144000, true);
    mode(&mut s, 10, 22, 1280, 720, 60000, false);
    mode(&mut s, 10, 23, 1920, 1080, 60000, false);
    mode(&mut s, 10, 24, 0, 0, 0, false);
    s.on_head_event(10, HeadEvent::Enabled { enabled: 1 });
    s.on_head_event(10, HeadEvent::CurrentMode { mode: 21 });
    s.on_head_event(10, HeadEvent::Position { x: 0, y: 0 });
    s.on_manager_event(ManagerEvent::Head { head: 11 });
    s.on_head_event(11, HeadEvent::Name { name: "HDMI-A-1".to_string() });
    mode(&mut s, 11, 30, 2560, 1440, 59951, true);
    s.on_manager_event(ManagerEvent::Done);
    s
}

#[test]
fn active_display_info() {
    let s = laptop();
    assert!(s.done);
    assert_eq!(get_active_display_info(&s), vec!["eDP-1 (BOE): 1920x1080 px, 144.000 Hz".to_string()]);
}

#[test]
fn refresh_rate_listing() {
    let s = laptop();
    assert_eq!(
        refresh_rate_report(&s),
        vec![
            "eDP-1 \"Panel\"",
            "  Make: BOE",
            "  Model: 0x0ad1",
            "  Enabled: yes",
            "  Modes:",
            "    1920x1080 px, 144.000000 Hz (preferred, current)",
            "    1920x1080 px, 60.000000 Hz",
            "    1280x720 px, 60.000000 Hz",
            "HDMI-A-1 \"\"",
            "  Make: ",
            "  Model: ",
            "  Enabled: no",
            "  Modes:",
            "    2560x1440 px, 59.951000 Hz (preferred)",
        ]
    );
}

#[test]
fn refresh_rate_selection() {
    let mut s = laptop();
    assert_eq!(select_refresh_mode(&s, 143_856), Some((10, 21)));
    assert_eq!(select_refresh_mode(&s, 60_000), Some((10, 20)));
    assert_eq!(select_refresh_mode(&s, 120_000), None);
    let head = s.head(10).unwrap();
    assert_eq!((head.x, head.y, head.current_mode), (0, 0, Some(21)));
    assert!(s.head(99).is_none());
    s.on_config_event(ConfigEvent::Cancelled);
    assert_eq!(s.config_success, Some(false));
    s.on_config_event(ConfigEvent::Succeeded);
    assert_eq!(s.config_success, Some(true));
}

#[test]
fn unknown_objects_are_ignored() {
    let mut s = laptop();
    s.on_head_event(99, HeadEvent::Mode { mode: 77 });
    s.on_mode_event(77, ModeEvent::Refresh { refresh: 1 });
    assert!(s.mode(77).is_none());
    s.on_manager_event(ManagerEvent::Head { head: 10 });
    let head = s.head(10).unwrap();
    assert_eq!(head.name, "");
    assert!(!head.enabled);
    assert_eq!(s.mode(21).unwrap().mode.refresh, 144000);
}

#[test]
fn modes_sort_stably() {
    let m = |w, h, r| WlMode { width: w, height: h, refresh: r, preferred: false };
    let rows = vec![(1, m(1280, 720, 60000)), (2, m(1920, 1080, 60000)), (3, m(1920, 1080, 60000)), (4, m(1920, 1200, 50000))];
    let sorted: Vec<u32> = sort_modes(&rows).iter().map(|r| r.0).collect();
    assert_eq!(sorted, vec![4, 2, 3, 1]);
}
