use jlink_rtt::config::{parse_config, AppConfig, ConfigMap};
use jlink_rtt::devices::{MatchQuality, SearchResult};
use jlink_rtt::numbers::{decimal_string, hex_string, parse_u32, parse_u64};
use jlink_rtt::orchestrator::{
    capture_banner, capture_outcome, capture_step, commander_args, gdb_server_args, gdb_server_start_message,
    line_matches_pattern, log_tail, match_timeout_secs, next_wait_step, ready_timeout_secs,
    reset_script, resume_outcome, CaptureEnd, WaitEvent, WaitStep,
};
use jlink_rtt::preflight::{
    check_usb_device, detect_jlink_serials, detect_tools, ensure_port_free, executable_candidates,
    perform_preflight, serial_from_line, socket_address, PortProbe, PreflightProbes, ToolSearch,
    UsbListing,
};
use jlink_rtt::session::{
    auto_serial, config_exists_message, config_report, current_exe_name, init_config_content,
    init_config_path, init_done_message, init_needs_device, missing_device_hint, pid_from_file,
    pkill_patterns, resolved_device_line, search_report, select_mode, stop_report,
    stopping_session_line, Mode,
};
use jlink_rtt::text::trim_str;
use jlink_rtt::devices::{device_cache_file_name, search_devices};

fn config() -> AppConfig {
    AppConfig {
        config_file: None,
        project_root: "/proj".to_string(),
        jlink_gdb_server: None,
        gdb: None,
        nc: None,
        host: "127.0.0.1".to_string(),
        device: Some("nRF52840_xxAA".to_string()),
        jlink_if: "SWD".to_string(),
        speed: "4000".to_string(),
        jlink_serial: None,
        gdb_port: "2331".to_string(),
        rtt_port: "19021".to_string(),
        ready_timeout: "10".to_string(),
        log_file: "/tmp/g.log".to_string(),
        gdb_log_file: "/tmp/r.log".to_string(),
        rtt_out_file: None,
        rtt_match_pattern: None,
        rtt_match_timeout: "30".to_string(),
        reset_target: "1".to_string(),
        resume_target: "1".to_string(),
        print_config: false,
        init: false,
        stop: false,
        search_device: None,
    }
}

fn no_tools() -> ToolSearch {
    ToolSearch {
        jlink_override_is_file: false,
        nc_override_is_file: false,
        jlink_gdb_server: None,
        jlink_gdb_server_cl: None,
        jlink_gdb_server_cl_exe: None,
        nc: None,
        ncat: None,
    }
}

// --- wrappers of std ---------------------------------------------------------

#[test]
fn unicode_whitespace_is_trimmed() {
    assert_eq!(trim_str("\u{3000} a b\t\r\n"), "a b");
    assert_eq!(trim_str("x"), "x");
}

#[test]
fn unicode_alphanumerics_are_kept_in_cache_names() {
    assert_eq!(device_cache_file_name("Vé7-β"), "jlink_devices_Vé7_β.csv");
}

#[test]
fn search_lowercases_unicode() {
    let list = "h\n\"V\", \"ÄBC\"\n";
    let r = search_devices("äbc", list);
    assert_eq!(r.len(), 1);
    assert_eq!(r[0].device, "ÄBC");
}

// --- numbers -----------------------------------------------------------------

#[test]
fn unsigned_parsing_follows_str_parse() {
    assert_eq!(parse_u64("42"), Some(42));
    assert_eq!(parse_u64("+42"), Some(42));
    assert_eq!(parse_u64("18446744073709551615"), Some(u64::MAX));
    assert_eq!(parse_u64("18446744073709551616"), None);
    assert_eq!(parse_u64(""), None);
    assert_eq!(parse_u64("+"), None);
    assert_eq!(parse_u64("-1"), None);
    assert_eq!(parse_u64(" 1"), None);
    assert_eq!(parse_u32("4294967295"), Some(u32::MAX));
    assert_eq!(parse_u32("4294967296"), None);
    for s in ["0", "007", "123456", "+9"] {
        assert_eq!(parse_u64(s), s.parse::<u64>().ok());
    }
}

#[test]
fn numerals() {
    assert_eq!(decimal_string(0), "0");
    assert_eq!(decimal_string(160), "160");
    assert_eq!(hex_string(0), "0");
    assert_eq!(hex_string(255), "ff");
    assert_eq!(hex_string(u64::MAX), format!("{:x}", u64::MAX));
}

// --- preflight ---------------------------------------------------------------

#[test]
fn tools_override_must_be_a_file() {
    let mut t = no_tools();
    t.jlink_gdb_server = Some("/usr/bin/JLinkGDBServer".to_string());
    let e = detect_tools(&Some("/bad".to_string()), &None, &t).unwrap_err();
    assert_eq!(e, "[ERROR] Missing required command: /bad.\n[INFO] Re-run the command with a valid path.");
    t.jlink_override_is_file = true;
    let d = detect_tools(&Some("/opt/gdbsrv".to_string()), &None, &t).unwrap();
    assert_eq!(d.jlink_gdb_server, "/opt/gdbsrv");
    assert_eq!(d.nc, "nc");
}

#[test]
fn tools_found_on_path_in_order() {
    let mut t = no_tools();
    t.jlink_gdb_server_cl = Some("/b/JLinkGDBServerCL".to_string());
    t.jlink_gdb_server_cl_exe = Some("/b/JLinkGDBServerCLExe".to_string());
    t.ncat = Some("/b/ncat".to_string());
    let d = detect_tools(&None, &None, &t).unwrap();
    assert_eq!(d.jlink_gdb_server, "/b/JLinkGDBServerCL");
    assert_eq!(d.nc, "/b/ncat");
    let e = detect_tools(&None, &None, &no_tools()).unwrap_err();
    assert_eq!(
        e,
        "[ERROR] Missing required command. Tried JLinkGDBServer, JLinkGDBServerCLExe.\n[INFO] Install SEGGER J-Link tools and add to PATH.\n[INFO] Or override individually: --jlink-gdb-server <path>"
    );
    t.jlink_override_is_file = true;
    assert!(detect_tools(&None, &Some("/bad/nc".to_string()), &t).is_err());
}

#[test]
fn executable_candidate_names() {
    assert_eq!(executable_candidates("nc", true), vec!["nc.exe", "nc"]);
    assert_eq!(executable_candidates("nc", false), vec!["nc"]);
}

#[test]
fn port_checks() {
    assert_eq!(socket_address("127.0.0.1", "2331"), "127.0.0.1:2331");
    assert!(ensure_port_free("127.0.0.1", "2331", "GDB", &PortProbe::Free).is_ok());
    assert_eq!(
        ensure_port_free("127.0.0.1", "2331", "GDB", &PortProbe::InUse).unwrap_err(),
        "[ERROR] GDB port 127.0.0.1:2331 is already in use.\n[INFO] Find and stop the stale process: lsof -i :2331 || ss -tlnp | grep :2331\n[INFO] Or use a different port: --gdb-port <PORT>"
    );
    assert_eq!(
        ensure_port_free("nohost", "1", "RTT", &PortProbe::Unresolvable("lookup failed".to_string())).unwrap_err(),
        "[ERROR] Invalid address nohost:1: lookup failed"
    );
}

#[test]
fn usb_listing_check() {
    assert_eq!(check_usb_device(&UsbListing::NotChecked), None);
    assert_eq!(check_usb_device(&UsbListing::Listing("Bus 001 Device 004: ID 1366:1015 SEGGER J-Link".to_string())), None);
    assert_eq!(check_usb_device(&UsbListing::Listing("ID 1366:0105".to_string())), None);
    let w = "[WARN] No SEGGER/J-Link USB device detected.\n[INFO] Ask the user to check: USB connection, permissions, or USB passthrough.\n[INFO] If using a remote J-Link, this warning can be ignored.";
    assert_eq!(check_usb_device(&UsbListing::Listing("Bus 001 Device 002: ID 8087:0024 Intel".to_string())), Some(w.to_string()));
    assert_eq!(check_usb_device(&UsbListing::Unavailable), Some(w.to_string()));
    assert_eq!(check_usb_device(&UsbListing::Listing("SEGGER".to_string())), None);
}

#[test]
fn serials_sorted_without_duplicates() {
    let out = "Bus 001 Device 004: ID 1366:1015 SEGGER J-Link\n  iSerial                 3 000683001234\n  ISERIAL 3 000123456789\n  iSerial                 0 \n  iSerial 3 000683001234\n  iSerial 0 0\n";
    assert_eq!(detect_jlink_serials(Some(out)), vec!["000123456789", "000683001234"]);
    assert!(detect_jlink_serials(None).is_empty());
}

#[test]
fn serial_from_line_needs_iserial_and_a_third_field() {
    let line: Vec<char> = "  iSerial 3 ABC".chars().collect();
    assert_eq!(serial_from_line(&line, "  iserial 3 abc"), Some("ABC".to_string()));
    assert_eq!(serial_from_line(&line, "  other 3 abc"), None);
}

#[test]
fn preflight_order_of_checks() {
    let c = config();
    let mut tools = no_tools();
    tools.jlink_gdb_server = Some("/b/JLinkGDBServer".to_string());
    let ok = PreflightProbes {
        tools,
        usb: UsbListing::Unavailable,
        gdb_port: PortProbe::Free,
        rtt_port: PortProbe::InUse,
    };
    let (warn, res) = perform_preflight(&c, &ok);
    assert!(warn.unwrap().starts_with("[WARN] No SEGGER/J-Link USB device detected."));
    assert!(res.unwrap_err().starts_with("[ERROR] RTT port 127.0.0.1:19021 is already in use."));
    let missing = PreflightProbes {
        tools: no_tools(),
        usb: UsbListing::Unavailable,
        gdb_port: PortProbe::InUse,
        rtt_port: PortProbe::InUse,
    };
    let (warn, res) = perform_preflight(&c, &missing);
    assert!(warn.is_none());
    assert!(res.unwrap_err().starts_with("[ERROR] Missing required command."));
    let mut tools = no_tools();
    tools.jlink_gdb_server = Some("/b/JLinkGDBServer".to_string());
    let fine = PreflightProbes {
        tools,
        usb: UsbListing::NotChecked,
        gdb_port: PortProbe::Free,
        rtt_port: PortProbe::Free,
    };
    let (warn, res) = perform_preflight(&c, &fine);
    assert!(warn.is_none());
    assert_eq!(res.unwrap().jlink_gdb_server, "/b/JLinkGDBServer");
}

// --- orchestrator ------------------------------------------------------------

#[test]
fn gdb_server_arguments() {
    let mut c = config();
    assert_eq!(
        gdb_server_args(&c),
        vec!["-device", "nRF52840_xxAA", "-if", "SWD", "-speed", "4000", "-port", "2331", "-RTTTelnetPort", "19021"]
    );
    c.jlink_serial = Some("123".to_string());
    c.device = None;
    let a = gdb_server_args(&c);
    assert_eq!(a[1], "");
    assert_eq!(&a[10..], &["-select".to_string(), "USB=123".to_string()]);
    assert_eq!(
        gdb_server_start_message(&c),
        "[INFO] Starting JLinkGDBServer for unknown on GDB 127.0.0.1:2331, RTT 127.0.0.1:19021."
    );
}

#[test]
fn reset_script_follows_switches() {
    let mut c = config();
    assert_eq!(reset_script(&c), Some("r\ng\nq\n".to_string()));
    c.reset_target = "0".to_string();
    assert_eq!(reset_script(&c), Some("g\nq\n".to_string()));
    c.resume_target = "0".to_string();
    assert_eq!(reset_script(&c), None);
}

#[test]
fn commander_arguments() {
    let mut c = config();
    c.jlink_serial = Some("77".to_string());
    assert_eq!(
        commander_args(&c, r"C:\t\reset.jlink", true),
        vec![
            "-device", "nRF52840_xxAA", "-if", "SWD", "-speed", "4000", "-NoGui", "1", "-ExitOnError", "1",
            "-CommanderScript", "C:/t/reset.jlink", "-SelectEmuBySN", "77"
        ]
    );
    assert_eq!(commander_args(&config(), "/t/r.jlink", false)[11], "/t/r.jlink");
}

#[test]
fn log_tail_keeps_last_160_lines() {
    let content: String = (0..200).map(|i| format!("line {}\n", i)).collect();
    let t = log_tail(&content);
    assert_eq!(t.len(), 160);
    assert_eq!(t[0], "line 40");
    assert_eq!(t[159], "line 199");
    assert_eq!(log_tail("a\nb"), vec!["a", "b"]);
}

#[test]
fn waiting_for_a_port() {
    assert!(matches!(next_wait_step("GDB", "h:1", WaitEvent::Clock { before_deadline: true }), WaitStep::CheckServer));
    assert!(matches!(next_wait_step("GDB", "h:1", WaitEvent::Server { exit_status: None }), WaitStep::TryConnect));
    assert!(matches!(next_wait_step("GDB", "h:1", WaitEvent::Connect { accepted: true }), WaitStep::Ready));
    assert!(matches!(next_wait_step("GDB", "h:1", WaitEvent::Connect { accepted: false }), WaitStep::Pause));
    assert!(matches!(next_wait_step("GDB", "h:1", WaitEvent::Paused), WaitStep::CheckClock));
    match next_wait_step("RTT", "h:2", WaitEvent::Clock { before_deadline: false }) {
        WaitStep::Failed(m) => assert_eq!(
            m,
            "[ERROR] Timed out waiting for RTT port h:2.\n[INFO] Check the JLinkGDBServer log above.\n[INFO] Or increase the timeout: --timeout 20"
        ),
        _ => panic!("expected a failure"),
    }
    match next_wait_step("GDB", "h:1", WaitEvent::Server { exit_status: Some("exit status: 1".to_string()) }) {
        WaitStep::Failed(m) => assert_eq!(
            m,
            "[ERROR] JLinkGDBServer stopped before GDB port became ready. Exit status: exit status: 1"
        ),
        _ => panic!("expected a failure"),
    }
}

#[test]
fn timeouts_default_when_unparsable() {
    let mut c = config();
    assert_eq!(ready_timeout_secs(&c), 10);
    c.ready_timeout = "25".to_string();
    c.rtt_match_timeout = "abc".to_string();
    assert_eq!(ready_timeout_secs(&c), 25);
    assert_eq!(match_timeout_secs(&c), 30);
    c.rtt_match_timeout = "60".to_string();
    assert_eq!(match_timeout_secs(&c), 60);
}

#[test]
fn capture_ends() {
    assert!(line_matches_pattern("[app] Application started\n", "Application started"));
    assert!(!line_matches_pattern("booting", "started"));
    assert_eq!(capture_outcome(CaptureEnd::Matched, "X", 30), Ok("[INFO] Matched RTT pattern: X".to_string()));
    assert_eq!(
        capture_outcome(CaptureEnd::Closed, "X", 30),
        Err("RTT connection closed before pattern was matched.".to_string())
    );
    assert_eq!(
        capture_outcome(CaptureEnd::TimedOut, "X", 45),
        Err("[ERROR] Timed out waiting for RTT pattern after 45s: X\n[INFO] Check the RTT output above for what was captured.\n[INFO] Or extend the timeout: --match-timeout 60\n[INFO] Or re-run without --match and without timeout to stream continuously, stop with SIGINT.".to_string())
    );
    let mut c = config();
    assert_eq!(capture_banner(&c, "h:1").len(), 2);
    c.rtt_match_pattern = Some("go".to_string());
    assert_eq!(capture_banner(&c, "h:1"), vec!["[INFO] Connecting to RTT telnet port h:1; waiting for match: go"]);
}

// --- session -----------------------------------------------------------------

#[test]
fn mode_precedence() {
    let mut c = config();
    assert_eq!(select_mode(&c), Mode::Capture);
    c.device = None;
    assert_eq!(select_mode(&c), Mode::MissingDevice);
    c.print_config = true;
    assert_eq!(select_mode(&c), Mode::PrintConfig);
    c.init = true;
    assert_eq!(select_mode(&c), Mode::Init);
    c.search_device = Some("x".to_string());
    assert_eq!(select_mode(&c), Mode::SearchDevice);
    c.stop = true;
    assert_eq!(select_mode(&c), Mode::Stop);
}

#[test]
fn print_config_lines() {
    let mut c = config();
    c.gdb = Some("arm-none-eabi-gdb".to_string());
    let r = config_report(&c);
    assert_eq!(r[0], "CONFIG_FILE=");
    assert_eq!(r[1], "PROJECT_ROOT=/proj");
    assert_eq!(r[2], "GDB=arm-none-eabi-gdb");
    assert_eq!(r[3], "HOST=127.0.0.1");
    assert_eq!(r[4], "DEVICE=nRF52840_xxAA");
    assert_eq!(r[7], "JLINK_SERIAL=");
    assert_eq!(r[11], "LOG_FILE=/tmp/g.log");
    assert_eq!(r.last().unwrap(), "RESUME_TARGET=1");
    assert_eq!(r.len(), 18);
}

#[test]
fn init_file_content_and_read_back() {
    let mut c = config();
    c.jlink_serial = Some("000683001234".to_string());
    let content = init_config_content(&c, "nRF52840_xxAA");
    assert_eq!(
        content,
        "# J-Link RTT project configuration\nDEVICE=nRF52840_xxAA\nJLINK_IF=SWD\nSPEED=4000\nHOST=127.0.0.1\nGDB_PORT=2331\nRTT_PORT=19021\nRTT_READY_TIMEOUT=10\nLOG_FILE=/tmp/g.log\nGDB_LOG_FILE=/tmp/r.log\nJLINK_SERIAL=000683001234\n"
    );
    let m: ConfigMap = parse_config(&content).unwrap();
    assert_eq!(m.entries.len(), 10);
    assert_eq!(m.get("DEVICE"), Some("nRF52840_xxAA".to_string()));
    assert_eq!(m.get("JLINK_SERIAL"), Some("000683001234".to_string()));
    assert_eq!(m.get("GDB_LOG_FILE"), Some("/tmp/r.log".to_string()));
}

#[test]
fn init_then_resolve_uses_recorded_settings() {
    let mut c = config();
    c.speed = "12000".to_string();
    let content = init_config_content(&c, "STM32F407VG");
    let m = parse_config(&content).unwrap();
    let args = jlink_rtt::config::CliArgs {
        config: None, project_root: None, print_config: false, init: false, jlink_gdb_server: None,
        gdb: None, nc: None, device: None, jlink_if: None, speed: None, serial: None, host: None,
        gdb_port: None, rtt_port: None, timeout: None, log: None, gdb_log: None, out: None,
        match_pattern: None, match_timeout: None, no_reset: false, no_resume: false, stop: false,
        search_device: None,
    };
    let run = AppConfig::resolve(args, None, "/proj".to_string(), &m, "/elsewhere");
    assert_eq!(run.device, Some("STM32F407VG".to_string()));
    assert_eq!(run.speed, "12000");
    assert_eq!(run.log_file, "/tmp/g.log");
    assert_eq!(run.jlink_serial, None);
}

#[test]
fn init_messages() {
    assert_eq!(
        init_needs_device("./jlink-rtt"),
        vec![
            "[ERROR] DEVICE is required for --init.",
            "[INFO] Scan the project for the DEVICE name (e.g. NRF52840_XXAA).",
            "[INFO] Use --search-device to confirm the exact name:",
            "[INFO]   ./jlink-rtt --search-device <pattern>"
        ]
    );
    assert_eq!(init_config_path(None, "/proj"), "/proj/.jlink-rtt.env");
    assert_eq!(init_config_path(Some("x.env".to_string()), "/proj"), "x.env");
    assert_eq!(config_exists_message("/p/.e", "./t")[3], "[INFO] To re-create, remove the file first: rm /p/.e");
    assert_eq!(init_done_message("/p/.e", "./t", false)[2], "[INFO]   ./t --out /tmp/rtt.log");
    assert_eq!(init_done_message("/p/.e", ".\\t", true)[2], "[INFO]   .\\t --out rtt.log");
    let found = SearchResult { quality: MatchQuality::Exact, vendor: "Nordic".to_string(), device: "nRF52".to_string() };
    assert_eq!(resolved_device_line(&found), "[INFO] Resolved device: nRF52 (Nordic)");
}

#[test]
fn auto_serial_only_with_one_probe() {
    let one = vec!["A".to_string()];
    let two = vec!["A".to_string(), "B".to_string()];
    assert_eq!(auto_serial(None, &one), Some("A".to_string()));
    assert_eq!(auto_serial(None, &two), None);
    assert_eq!(auto_serial(Some("Z".to_string()), &one), Some("Z".to_string()));
}

#[test]
fn missing_device_hint_with_several_probes() {
    let c = config();
    let serials = vec!["111".to_string(), "222".to_string()];
    let h = missing_device_hint("./jlink-rtt", &c, &serials);
    assert_eq!(h[4], "[INFO] Multiple J-Link probes detected. Ask the user which serial to use.");
    assert_eq!(h[6], "[INFO]   111");
    assert_eq!(h[7], "[INFO]   222");
    assert_eq!(
        h[9],
        "[INFO]   ./jlink-rtt --init --device <DEVICE> --if SWD --speed 4000 --host 127.0.0.1 --gdb-port 2331 --rtt-port 19021 --timeout 10 --serial <SERIAL>"
    );
    let h1 = missing_device_hint("./jlink-rtt", &c, &vec!["111".to_string()]);
    assert_eq!(h1.len(), 7);
    assert!(h1[5].ends_with("--timeout 10 --serial 111"));
    let h0 = missing_device_hint("./jlink-rtt", &c, &vec![]);
    assert!(h0[5].ends_with("--timeout 10"));
}

#[test]
fn search_device_report() {
    let (lines, ok) = search_report("zz", &vec![]);
    assert!(!ok);
    assert_eq!(lines, vec!["[INFO] No J-Link devices match 'zz'.", "[INFO] Try a broader pattern, e.g. 'nrf52' instead of 'nrf52840'."]);
    let r = vec![SearchResult { quality: MatchQuality::Prefix, vendor: "ST".to_string(), device: "STM32".to_string() }];
    assert_eq!(search_report("stm", &r), (vec!["ST | STM32".to_string()], true));
}

#[test]
fn stop_helpers() {
    assert_eq!(
        pkill_patterns(&config()),
        vec!["JLinkGDBServerCLExe.*-port 2331.*-RTTTelnetPort 19021", "JLinkGDBServer.*-port 2331.*-RTTTelnetPort 19021"]
    );
    assert_eq!(pid_from_file(" 4242\n"), Some("4242".to_string()));
    assert_eq!(pid_from_file("\n"), None);
    assert_eq!(stopping_session_line("4242"), "[INFO] Stopping running orchestrator session (PID 4242)...");
    assert_eq!(stop_report(true, true, "19021"), ("[INFO] Stop signal sent to RTT session (port 19021).".to_string(), true));
    assert_eq!(stop_report(false, false, "1").1, true);
    assert_eq!(stop_report(false, true, "1"), ("[WARN] No running RTT session found for this project.".to_string(), false));
}

#[test]
fn exe_name_from_run_path() {
    assert_eq!(current_exe_name(Some("/usr/local/bin/jlink-rtt"), false), "./jlink-rtt");
    assert_eq!(current_exe_name(Some("tool"), true), ".\\tool");
    assert_eq!(current_exe_name(None, false), "./jlink-rtt");
    assert_eq!(current_exe_name(None, true), ".\\jlink-rtt.exe");
}

#[test]
fn exe_display_from_file_name() {
    assert_eq!(jlink_rtt::session::exe_display_name(Some("x"), false), "./x");
    assert_eq!(jlink_rtt::session::exe_display_name(None, true), ".\\jlink-rtt.exe");
}

#[test]
fn executable_search_order() {
    let dirs = vec!["/usr/bin".to_string(), "/opt/b".to_string()];
    assert_eq!(
        jlink_rtt::preflight::executable_search_paths(&dirs, "nc", true),
        vec!["/usr/bin/nc.exe", "/usr/bin/nc", "/opt/b/nc.exe", "/opt/b/nc"]
    );
    let tried = jlink_rtt::preflight::executable_search_paths(&dirs, "nc", false);
    assert_eq!(
        jlink_rtt::preflight::find_executable(&tried, &vec![false, true]),
        Some("/opt/b/nc".to_string())
    );
    assert_eq!(jlink_rtt::preflight::find_executable(&tried, &vec![false, false]), None);
}

#[test]
fn capture_step_echoes_every_line_and_stops_at_the_first_match() {
    let lines = ["boot\n", "[app] Application started\n", "after\n"];
    let mut shown: Vec<&str> = Vec::new();
    let mut end = None;
    for l in lines.iter() {
        let a = capture_step(Some(l), "Application started");
        if a.echo {
            shown.push(l);
        }
        if a.end.is_some() {
            end = a.end;
            break;
        }
    }
    assert_eq!(shown, vec!["boot\n", "[app] Application started\n"]);
    assert!(matches!(end, Some(CaptureEnd::Matched)));
    let a = capture_step(Some("booting\n"), "started");
    assert!(a.echo);
    assert!(a.end.is_none());
    let a = capture_step(None, "started");
    assert!(!a.echo);
    assert!(matches!(a.end, Some(CaptureEnd::Closed)));
}

#[test]
fn init_file_reads_back_nine_settings_whatever_the_serial() {
    let mut c = config();
    c.jlink_serial = Some(" '000683001234' \r".to_string());
    let content = init_config_content(&c, "nRF52840_xxAA");
    let m: ConfigMap = parse_config(&content).unwrap();
    assert_eq!(m.entries.len(), 10);
    assert_eq!(m.get("DEVICE"), Some("nRF52840_xxAA".to_string()));
    assert_eq!(m.get("JLINK_IF"), Some("SWD".to_string()));
    assert_eq!(m.get("RTT_READY_TIMEOUT"), Some("10".to_string()));
    assert_eq!(m.get("GDB_LOG_FILE"), Some("/tmp/r.log".to_string()));
    assert_eq!(m.get("JLINK_SERIAL"), Some("000683001234".to_string()));
}

#[test]
fn resume_outcome_follows_commander_exit_status() {
    assert_eq!(resume_outcome(true), Ok(()));
    assert_eq!(
        resume_outcome(false),
        Err("[ERROR] Failed to reset/resume target through J-Link Commander.\n[INFO] Check the resume log above.".to_string())
    );
}
