use mediachat_native::monitors::{
    display_query_step, find_source_mode, friendly_name, get_primary_monitor,
    monitors_from_display_config, AdapterId, DisplayMode, DisplayPath, MonitorPos, QueryStep,
    ERROR_INSUFFICIENT_BUFFER, ERROR_SUCCESS, MODE_INFO_TYPE_SOURCE,
};

fn padded(name: &str, len: usize) -> Vec<u16> {
    let mut v: Vec<u16> = name.encode_utf16().collect();
    v.resize(len, 0);
    v
}

fn adapter(low: u32) -> AdapterId {
    AdapterId { low_part: low, high_part: 0 }
}

fn monitor(name: &str, x: i32) -> MonitorPos {
    MonitorPos { name: name.to_string(), pos_x: x }
}

#[test]
fn query_steps() {
    assert_eq!(display_query_step(ERROR_SUCCESS), QueryStep::Done);
    assert_eq!(display_query_step(ERROR_INSUFFICIENT_BUFFER), QueryStep::Retry);
    assert_eq!(display_query_step(87), QueryStep::Fail);
}

#[test]
fn friendly_name_drops_padding() {
    assert_eq!(friendly_name(&padded("LG ULTRAGEAR", 64)), "LG ULTRAGEAR");
}

#[test]
fn friendly_name_replaces_lone_surrogate() {
    let units = vec![0x41, 0xD800, 0x42, 0, 0];
    assert_eq!(friendly_name(&units), "A\u{FFFD}B");
}

#[test]
fn friendly_name_decodes_pairs() {
    let units = vec![0xD83D, 0xDE00, 0];
    assert_eq!(friendly_name(&units), "😀");
}

#[test]
fn source_mode_is_found() {
    let path = DisplayPath { source_adapter: adapter(7), source_id: 2, friendly_name: vec![] };
    let modes = vec![
        DisplayMode { info_type: 2, adapter: adapter(7), id: 2, position_x: 0 },
        DisplayMode { info_type: MODE_INFO_TYPE_SOURCE, adapter: adapter(7), id: 1, position_x: 10 },
        DisplayMode { info_type: MODE_INFO_TYPE_SOURCE, adapter: adapter(7), id: 2, position_x: 1920 },
        DisplayMode { info_type: MODE_INFO_TYPE_SOURCE, adapter: adapter(7), id: 2, position_x: 5 },
    ];
    assert_eq!(find_source_mode(&modes, &path), Some(2));
    let other = DisplayPath { source_adapter: adapter(8), source_id: 2, friendly_name: vec![] };
    assert_eq!(find_source_mode(&modes, &other), None);
}

#[test]
fn monitors_follow_paths() {
    let paths = vec![
        DisplayPath { source_adapter: adapter(1), source_id: 0, friendly_name: padded("Left", 64) },
        DisplayPath { source_adapter: adapter(1), source_id: 5, friendly_name: padded("Ghost", 64) },
        DisplayPath { source_adapter: adapter(1), source_id: 1, friendly_name: padded("Right", 64) },
    ];
    let modes = vec![
        DisplayMode { info_type: 2, adapter: adapter(1), id: 0, position_x: 99 },
        DisplayMode { info_type: MODE_INFO_TYPE_SOURCE, adapter: adapter(1), id: 1, position_x: 1920 },
        DisplayMode { info_type: MODE_INFO_TYPE_SOURCE, adapter: adapter(1), id: 0, position_x: -1280 },
    ];
    let ms = monitors_from_display_config(&paths, &modes);
    assert_eq!(ms.len(), 2);
    assert_eq!(ms[0].name, "Left");
    assert_eq!(ms[0].pos_x, -1280);
    assert_eq!(ms[1].name, "Right");
    assert_eq!(ms[1].pos_x, 1920);
}

#[test]
fn no_paths_no_monitors() {
    assert!(monitors_from_display_config(&vec![], &vec![]).is_empty());
}

#[test]
fn primary_is_the_one_at_origin() {
    let p = get_primary_monitor(vec![monitor("A", -1920), monitor("B", 0), monitor("C", 0)]);
    assert_eq!(p.name, "B");
    assert_eq!(p.pos_x, 0);
}

#[test]
fn primary_defaults_to_first() {
    let p = get_primary_monitor(vec![monitor("A", 1920), monitor("B", 3840)]);
    assert_eq!(p.name, "A");
    assert_eq!(p.pos_x, 1920);
}

#[test]
fn primary_of_single_monitor() {
    let p = get_primary_monitor(vec![monitor("Only", 0)]);
    assert_eq!(p.name, "Only");
}

#[test]
fn encoded_name_reads_back() {
    for name in ["Generic PnP Monitor", "Écran 😀", ""].iter() {
        let mut units = mediachat_native::wide::to_wide_nul(name);
        units.resize(64, 0);
        assert_eq!(friendly_name(&units), *name);
    }
}
