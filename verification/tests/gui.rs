use iris::config::{
    ForwardBind, ForwardProto, MachineConfig, NetMode, NetworkConfig, NfsVersion, ScsiDeviceConfig,
    VinoConfig, VinoSource, VinoStandard, VALID_BANK_SIZES,
};
use iris::config_ui::{
    attach_scsi, bind_label, camera_preview_caption, chd_unsupported, custom_prom,
    gdb_port_from_field, is_blank, is_empty_drive, jit_tier_shown, manual_interface,
    net_mode_label, new_port_forward, nfs_enabled, nfs_version_label, optional_text, pcap_selected_text,
    proto_label, remove_scsi, scratch_size_shown, scsi_placeholder_path, set_device_type,
    total_ram_mb, vino_source_label, vino_standard_label, ConfigAction, JitEnv, PcapIface, Tab,
};
use iris::framebuffer::{capture, Frame};
use iris::input::{map_key, mouse_packet, pointer_buttons, InputState, Key, KeyCode, Modifiers};
use iris::safe_stop::{evaluate, reason_lines, Status, UnsafeReasons};

fn device(path: &str, overlay: bool) -> ScsiDeviceConfig {
    ScsiDeviceConfig {
        path: path.to_string(),
        discs: vec![],
        cdrom: false,
        overlay,
        scratch: false,
        size_mb: None,
    }
}

fn machine(scsi: Vec<(u8, ScsiDeviceConfig)>) -> MachineConfig {
    MachineConfig {
        prom: String::new(),
        nvram: "nvram.bin".to_string(),
        serial_log: None,
        banks: [128, 128, 0, 0],
        scale: 2,
        headless: false,
        no_audio: false,
        scsi,
        network: NetworkConfig { mode: NetMode::Nat, pcap_interface: None },
        nat_subnet: None,
        port_forward: vec![],
        nfs: None,
        vino: VinoConfig { source: VinoSource::Off, standard: VinoStandard::Ntsc, camera_index: 0 },
        gdb_port: None,
        ci: false,
        ci_socket: String::new(),
        ci_display: false,
    }
}

// ── safe stop ───────────────────────────────────────────────────────────────

#[test]
fn safe_when_powered_off_or_at_prom_or_clean() {
    let cfg = machine(vec![(1, device("disk.chd", false))]);
    for st in [
        Status { power_off_seen: true, in_prom: false, dirty_cow: 9 },
        Status { power_off_seen: false, in_prom: true, dirty_cow: 9 },
        Status { power_off_seen: false, in_prom: false, dirty_cow: 0 },
    ] {
        let r = evaluate(&st, &cfg);
        assert!(r.is_empty());
        assert!(reason_lines(&r).is_empty());
    }
    assert!(UnsafeReasons::default().is_empty());
}

#[test]
fn unsafe_stop_lists_reasons() {
    let cfg = machine(vec![
        (5, device("a.chd", false)),
        (2, device("b.chd", false)),
        (3, device("c.raw", false)),
        (4, device("d.chd", true)),
    ]);
    let st = Status { power_off_seen: false, in_prom: false, dirty_cow: 3 };
    let r = evaluate(&st, &cfg);
    assert!(!r.is_empty());
    assert!(r.irix_running);
    assert_eq!(r.dirty_cow, 3);
    assert_eq!(r.chd_no_overlay, vec![2, 5]);
    assert_eq!(
        reason_lines(&r),
        vec![
            "IRIX is running — force-stop may corrupt the filesystem.".to_string(),
            "3 dirty COW overlay sector(s) have not been flushed to disk.".to_string(),
            "scsi2 is a CHD image without overlay=true — writes will be discarded.".to_string(),
            "scsi5 is a CHD image without overlay=true — writes will be discarded.".to_string(),
        ]
    );
}

#[test]
fn reason_lines_format_numbers() {
    let r = UnsafeReasons { irix_running: false, dirty_cow: 1024, chd_no_overlay: vec![7] };
    assert_eq!(
        reason_lines(&r),
        vec![
            "1024 dirty COW overlay sector(s) have not been flushed to disk.".to_string(),
            "scsi7 is a CHD image without overlay=true — writes will be discarded.".to_string(),
        ]
    );
}

// ── input ───────────────────────────────────────────────────────────────────

#[test]
fn keys_map_to_physical_codes() {
    assert_eq!(map_key(Key::A), Some(KeyCode::KeyA));
    assert_eq!(map_key(Key::Num7), Some(KeyCode::Digit7));
    assert_eq!(map_key(Key::Plus), Some(KeyCode::Equal));
    assert_eq!(map_key(Key::Equals), Some(KeyCode::Equal));
    assert_eq!(map_key(Key::Colon), Some(KeyCode::Semicolon));
    assert_eq!(map_key(Key::Backtick), Some(KeyCode::Backquote));
    assert_eq!(map_key(Key::F12), Some(KeyCode::F12));
    assert_eq!(map_key(Key::F11), None);
    assert_eq!(map_key(Key::F5), None);
    assert_eq!(map_key(Key::Other), None);
}

#[test]
fn modifier_changes_become_key_events() {
    let mut st = InputState::default();
    let shift_ctrl = Modifiers { alt: false, ctrl: true, shift: true, mac_cmd: false };
    assert_eq!(
        st.update_modifiers(shift_ctrl),
        vec![(KeyCode::ShiftLeft, true), (KeyCode::ControlLeft, true)]
    );
    assert!(st.update_modifiers(shift_ctrl).is_empty());
    let alt_cmd = Modifiers { alt: true, ctrl: false, shift: false, mac_cmd: true };
    assert_eq!(
        st.update_modifiers(alt_cmd),
        vec![
            (KeyCode::ShiftLeft, false),
            (KeyCode::ControlLeft, false),
            (KeyCode::AltLeft, true),
            (KeyCode::SuperLeft, true),
        ]
    );
    assert_eq!(st.last_mods, alt_cmd);
    assert_eq!(Modifiers::none(), Modifiers { alt: false, ctrl: false, shift: false, mac_cmd: false });
}

#[test]
fn mouse_packets() {
    assert_eq!(pointer_buttons(true, false, true), 0x05);
    assert_eq!(pointer_buttons(false, true, false), 0x02);
    assert_eq!(mouse_packet(0x01, 5, -3), (0x29, 5, 0xfd));
    assert_eq!(mouse_packet(0xff, 300, 0), (0x0f, 255, 0));
    assert_eq!(mouse_packet(0, -300, 1000), (0x18, 0x00, 0xff));

    let mut st = InputState::default();
    assert_eq!(st.mouse_step(0, 0, 0), None);
    // screen y grows down, PS/2 y grows up
    assert_eq!(st.mouse_step(0, 2, 3), Some((0x28, 2, 0xfd)));
    assert_eq!(st.mouse_step(1, 0, 0), Some((0x09, 0, 0)));
    assert_eq!(st.last_buttons, 1);
    assert_eq!(st.mouse_step(1, 0, 0), None);
}

// ── framebuffer ─────────────────────────────────────────────────────────────

#[test]
fn capture_packs_rgba_rows() {
    let mut pixels = vec![0u32; 2048 * 2];
    pixels[0] = 0x0033_2211;
    pixels[1] = 0x1266_5544;
    pixels[2] = 0xdead_beef; // outside the 2-pixel-wide picture
    pixels[2048] = 0x0099_8877;
    pixels[2049] = 0x00cc_bbaa;
    let mut f = Frame::default();
    assert_eq!(f.seq, 0);
    capture(&mut f, &pixels, 2, 2, 1);
    assert_eq!((f.width, f.height, f.seq), (2, 2, 1));
    assert_eq!(
        f.rgba,
        vec![
            0x11, 0x22, 0x33, 0xff, 0x44, 0x55, 0x66, 0xff, 0x77, 0x88, 0x99, 0xff, 0xaa, 0xbb,
            0xcc, 0xff,
        ]
    );
    // an empty picture keeps the previous frame
    capture(&mut f, &pixels, 0, 2, 2);
    assert_eq!((f.width, f.height, f.seq), (2, 2, 1));
    assert_eq!(f.rgba.len(), 16);
}

// ── config tabs ─────────────────────────────────────────────────────────────

#[test]
fn visible_tabs_depend_on_build() {
    assert_eq!(
        Tab::visible(false, false),
        vec![
            Tab::General,
            Tab::Disks,
            Tab::Network,
            Tab::Memory,
            Tab::Display,
            Tab::VideoIn,
            Tab::Debug,
            Tab::Ci,
        ]
    );
    assert_eq!(Tab::visible(true, true).len(), 6);
    assert!(!Tab::visible(true, false).contains(&Tab::Debug));
    assert!(Tab::visible(true, false).contains(&Tab::Ci));
    assert_eq!(Tab::Network.label(), "Networking");
    assert_eq!(Tab::Debug.label(), "Debug / JIT");
    assert_eq!(Tab::Ci.label(), "CI / Automation");
    assert_eq!(Tab::VideoIn.label(), "Video-In");
}

#[test]
fn jit_env_exports_set_fields_in_order() {
    let mut j = JitEnv::default();
    assert!(j.env_vars().is_empty());
    j.iris_jit = true;
    j.max_tier = Some(1);
    j.probe = "200".to_string();
    j.no_idle = true;
    j.debug_log = "mc,mips".to_string();
    let vars = j.env_vars();
    let expect: Vec<(String, String)> = [
        ("IRIS_JIT", "1"),
        ("IRIS_JIT_MAX_TIER", "1"),
        ("IRIS_JIT_PROBE", "200"),
        ("IRIS_NO_IDLE", "1"),
        ("IRIS_DEBUG_LOG", "mc,mips"),
    ]
    .iter()
    .map(|(a, b)| (a.to_string(), b.to_string()))
    .collect();
    assert_eq!(vars, expect);
    assert_eq!(jit_tier_shown(&j), 1);
    assert_eq!(jit_tier_shown(&JitEnv::default()), 2);
}

#[test]
fn pcap_summary_line() {
    let mut i = PcapIface {
        name: "eth0".to_string(),
        description: Some("Intel".to_string()),
        addrs: vec!["192.168.1.5".to_string(), "fe80::1".to_string()],
        up: true,
        running: true,
        loopback: false,
    };
    assert_eq!(i.summary(), "eth0  [up,running]  192.168.1.5  — Intel");
    i.up = false;
    i.running = false;
    i.loopback = true;
    i.description = Some(String::new());
    i.addrs.clear();
    assert_eq!(i.summary(), "eth0  [loopback]");
    i.loopback = false;
    i.description = None;
    assert_eq!(i.summary(), "eth0");
}

#[test]
fn scsi_attach_type_and_remove() {
    let mut cfg = machine(vec![(1, device("a.raw", false))]);
    attach_scsi(&mut cfg, 4);
    assert_eq!(cfg.scsi.len(), 2);
    assert_eq!(cfg.scsi[1].0, 4);
    assert_eq!(cfg.scsi[1].1.path, "scsi4.raw");
    assert_eq!(scsi_placeholder_path(4), "scsi4.raw");
    set_device_type(&mut cfg.scsi[1].1, 4, true);
    assert!(cfg.scsi[1].1.cdrom);
    assert_eq!(cfg.scsi[1].1.path, "");
    assert!(is_empty_drive(&cfg.scsi[1].1));
    // a user-chosen path survives the switch
    let mut d = device("my.iso", false);
    set_device_type(&mut d, 4, true);
    assert_eq!(d.path, "my.iso");
    assert!(!is_empty_drive(&d));
    remove_scsi(&mut cfg, 1);
    assert_eq!(cfg.scsi.len(), 1);
    assert_eq!(cfg.scsi[0].0, 4);
    // re-attaching replaces
    attach_scsi(&mut cfg, 4);
    assert_eq!(cfg.scsi.len(), 1);
    assert!(!cfg.scsi[0].1.cdrom);
    assert_eq!(scratch_size_shown(&cfg.scsi[0].1), 64);
    assert!(chd_unsupported(&device("x.chd", false), false));
    assert!(!chd_unsupported(&device("x.chd", false), true));
    assert!(!chd_unsupported(&device("x.raw", false), false));
}

#[test]
fn text_fields_and_defaults() {
    assert_eq!(total_ram_mb(&[128, 64, 8, 0]), 200);
    assert_eq!(VALID_BANK_SIZES, [0, 8, 16, 32, 64, 128]);
    assert_eq!(gdb_port_from_field(0), None);
    assert_eq!(gdb_port_from_field(1234), Some(1234));
    assert_eq!(optional_text(String::new()), None);
    assert_eq!(optional_text("10.0.0.0/8".to_string()), Some("10.0.0.0/8".to_string()));
    assert!(is_blank("  \t\n"));
    assert!(!is_blank(" x "));
    assert_eq!(manual_interface("   ".to_string()), None);
    assert_eq!(manual_interface(" eth1".to_string()), Some(" eth1".to_string()));
    assert_eq!(pcap_selected_text(&None), "Auto-pick (first up, non-loopback)");
    assert_eq!(pcap_selected_text(&Some(String::new())), "Auto-pick (first up, non-loopback)");
    assert_eq!(pcap_selected_text(&Some("en0".to_string())), "en0");
    let nfs = nfs_enabled(true).unwrap();
    assert_eq!(nfs.shared_dir, "");
    assert_eq!(nfs.version, NfsVersion::Auto);
    assert!(nfs_enabled(false).is_none());
    assert_eq!(nfs_version_label(NfsVersion::Auto), "Auto");
    assert_eq!(nfs_version_label(NfsVersion::V2), "v2");
    assert_eq!(nfs_version_label(NfsVersion::V3), "v3");
    let pf = new_port_forward();
    assert_eq!(pf.proto, ForwardProto::Tcp);
    assert_eq!(pf.bind, ForwardBind::Localhost);
    assert_eq!((pf.host_port, pf.guest_port), (0, 0));
    let mut cfg = machine(vec![]);
    assert!(!custom_prom(&cfg));
    cfg.prom = "prom.bin".to_string();
    assert!(custom_prom(&cfg));
    assert_eq!(ConfigAction::default(), ConfigAction::NoAction);
}

#[test]
fn combo_labels_and_captions() {
    assert_eq!(net_mode_label(NetMode::Pcap), "PCAP (bridged)");
    assert_eq!(proto_label(ForwardProto::Udp), "udp");
    assert_eq!(bind_label(ForwardBind::Any), "any");
    assert_eq!(vino_source_label(VinoSource::TestPattern), "test_pattern");
    assert_eq!(vino_source_label(VinoSource::Off), "off (disabled)");
    assert_eq!(vino_standard_label(VinoStandard::Pal), "pal");
    assert_eq!(camera_preview_caption(3, VinoStandard::Pal), "Preview host camera #3 live (PAL).");
    assert_eq!(camera_preview_caption(10, VinoStandard::Ntsc), "Preview host camera #10 live (NTSC).");
}

#[test]
fn captured_pixels_are_opaque() {
    let mut pixels = vec![0u32; 2048 * 3];
    pixels[0] = 0x0000_0000;
    pixels[1] = 0x7f12_3456;
    pixels[2048 * 2 + 2] = 0x00ff_ffff;
    let mut f = Frame::default();
    capture(&mut f, &pixels, 3, 3, 9);
    assert_eq!(f.rgba.len(), 3 * 3 * 4);
    for (i, b) in f.rgba.iter().enumerate() {
        if i % 4 == 3 {
            assert_eq!(*b, 0xff, "alpha byte {i}");
        }
    }
    assert_eq!(&f.rgba[4..8], &[0x56, 0x34, 0x12, 0xff]);
}

#[test]
fn attach_then_remove_restores_the_others() {
    let before = machine(vec![(1, device("a.raw", false)), (3, device("c.chd", true))]);
    let mut cfg = before.clone();
    attach_scsi(&mut cfg, 5);
    remove_scsi(&mut cfg, 5);
    let ids: Vec<u8> = cfg.scsi.iter().map(|(i, _)| *i).collect();
    assert_eq!(ids, vec![1, 3]);
    assert_eq!(cfg.scsi[1].1.path, "c.chd");

    // attaching over an existing target keeps each id once
    attach_scsi(&mut cfg, 1);
    attach_scsi(&mut cfg, 1);
    let ids: Vec<u8> = cfg.scsi.iter().map(|(i, _)| *i).collect();
    assert_eq!(ids, vec![3, 1]);
    assert_eq!(cfg.scsi[1].1.path, "scsi1.raw");
}

#[test]
fn scsi_edits_leave_other_settings_alone() {
    let mut cfg = machine(vec![(2, device("b.raw", false))]);
    cfg.prom = "prom.bin".to_string();
    cfg.banks = [64, 64, 0, 0];
    attach_scsi(&mut cfg, 6);
    remove_scsi(&mut cfg, 2);
    assert_eq!(cfg.prom, "prom.bin");
    assert_eq!(cfg.banks, [64, 64, 0, 0]);
    assert_eq!(cfg.nvram, "nvram.bin");
    assert_eq!(cfg.scsi.len(), 1);
}
