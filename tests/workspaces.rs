use hyprvisor::workspaces::{parse_reply, Workspace};

#[test]
fn new_workspace_is_blank() {
    let w = Workspace::new();
    assert_eq!(w.id, 0);
    assert_eq!(w.name, "");
    assert_eq!(w.monitor, "");
    assert_eq!(w.monitor_id, 0);
    assert_eq!(w.windows, 0);
    assert!(!w.hasfullscreen);
    assert_eq!(w.lastwindow, "");
    assert_eq!(w.lastwindowtitle, "");
}

#[test]
fn empty_reply_has_no_workspaces() {
    assert_eq!(parse_reply("").unwrap().len(), 0);
    assert_eq!(parse_reply("\n\n").unwrap().len(), 0);
}

#[test]
fn reply_fields_are_read() {
    let reply = "workspace ID 3 (3) main((\nmonitor is on DP-1 index 2\nwindows: 4\nhasfullscreen: 1\nlastwindow: 0x5e1\n";
    let ws = parse_reply(reply).unwrap();
    assert_eq!(ws.len(), 1);
    let w = &ws[0];
    assert_eq!(w.id, 3);
    assert_eq!(w.name, "main");
    assert_eq!(w.monitor, "DP-1");
    assert_eq!(w.monitor_id, 2);
    assert_eq!(w.windows, 4);
    assert!(w.hasfullscreen);
    assert_eq!(w.lastwindow, "0x5e1");
    assert_eq!(w.lastwindowtitle, "");
}

#[test]
fn title_line_is_read_as_last_window() {
    let ws = parse_reply("workspace ID 1 (1) a\nlastwindowtitle: kitty ~\n").unwrap();
    assert_eq!(ws[0].lastwindow, "kitty");
    assert_eq!(ws[0].lastwindowtitle, "");
}

#[test]
fn later_workspaces_keep_unset_fields() {
    let reply = "workspace ID 1 (1) a\r\nwindows: 2\r\nhasfullscreen: 0\r\nworkspace ID 2 (2) b\r\nhasfullscreen: 1";
    let ws = parse_reply(reply).unwrap();
    assert_eq!(ws.len(), 2);
    assert_eq!((ws[0].id, ws[0].name.as_str(), ws[0].windows, ws[0].hasfullscreen), (1, "a", 2, false));
    assert_eq!((ws[1].id, ws[1].name.as_str(), ws[1].windows, ws[1].hasfullscreen), (2, "b", 2, true));
}

#[test]
fn indented_hyprland_reply_reads_the_header_only() {
    let reply = "workspace ID 1 (1) on monitor DP-1:\n\tmonitorID: 0\n\twindows: 2\n\thasfullscreen: 0\n\n";
    let ws = parse_reply(reply).unwrap();
    assert_eq!(ws.len(), 1);
    assert_eq!(ws[0].id, 1);
    assert_eq!(ws[0].name, "on");
    assert_eq!(ws[0].windows, 0);
}

#[test]
fn workspace_with_id_zero_is_not_listed() {
    let ws = parse_reply("workspace ID 0 (0) x\nworkspace ID +7 (7) y\n").unwrap();
    assert_eq!(ws.len(), 1);
    assert_eq!(ws[0].id, 7);
    assert_eq!(ws[0].name, "y");
}

#[test]
fn malformed_replies_are_refused() {
    assert!(parse_reply("workspace ID x (1) a\n").is_none());
    assert!(parse_reply("workspace ID 1 (1)\n").is_none());
    assert!(parse_reply("workspace ID 4294967296 (1) a\n").is_none());
    assert!(parse_reply("workspace ID 1 (1) a\nwindows:\n").is_none());
    assert!(parse_reply("workspace ID 1 (1) a\nwindows: -1\n").is_none());
    assert!(parse_reply("monitor a b c d\n").is_none());
    assert!(parse_reply("hasfullscreen").is_none());
}

#[test]
fn largest_id_is_read() {
    let ws = parse_reply("workspace ID 4294967295 (1) a").unwrap();
    assert_eq!(ws[0].id, u32::MAX);
}
