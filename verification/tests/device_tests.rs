use jlink_rtt::devices::{
    choose_device, classify_device, commander_file_args, commander_missing_message,
    device_cache_file_name, device_entries, devlist_script, export_failed_message,
    get_jlink_cmd_name, get_null_device, parse_jlink_version, rank_device_matches,
    resolve_device_name, search_devices, MatchQuality, SearchResult,
};

const DEVICE_LIST: &str = "\"Manufacturer\", \"Device\", \"Core\", \"Flash\"\n\
\"Nordic Semi\", \"nRF52840_xxAA\", \"Cortex-M4\", \"1 MB\"\n\
\"Nordic Semi\", \"nRF52840\", \"Cortex-M4\", \"1 MB\"\n\
\"Nordic Semi\", \"nRF52832_xxAA\", \"Cortex-M4\", \"512 KB\"\n\
\n\
\"ST\", \"STM32F407VG\", \"Cortex-M4\", \"1 MB\"\n\
\"Acme\", \"XNRF52840\", \"Cortex-M0\"\n\
not a device line\n";

fn result(q: MatchQuality, vendor: &str, device: &str) -> SearchResult {
    SearchResult { quality: q, vendor: vendor.to_string(), device: device.to_string() }
}

#[test]
fn device_entries_skip_header_blank_and_short_lines() {
    let e = device_entries(DEVICE_LIST);
    assert_eq!(e.len(), 5);
    assert_eq!(e[0], ("Nordic Semi".to_string(), "nRF52840_xxAA".to_string()));
    assert_eq!(e[3], ("ST".to_string(), "STM32F407VG".to_string()));
    assert_eq!(e[4], ("Acme".to_string(), "XNRF52840".to_string()));
}

#[test]
fn device_entries_strip_quotes_and_whitespace() {
    let e = device_entries("header\n  \"'V'\", \"  D1 \"\n");
    assert_eq!(e, vec![("V".to_string(), "D1".to_string())]);
}

#[test]
fn classify_exact_prefix_contains() {
    let p: Vec<char> = "nrf52840".chars().collect();
    let c = |s: &str| classify_device(&s.chars().collect(), &p);
    assert_eq!(c("nrf52840"), Some(MatchQuality::Exact));
    assert_eq!(c("nrf52840_xxaa"), Some(MatchQuality::Prefix));
    assert_eq!(c("xnrf52840"), Some(MatchQuality::Contains));
    assert_eq!(c("nrf52832"), None);
}

#[test]
fn search_ranks_exact_then_prefix_then_contains_ignoring_case() {
    let r = search_devices("NRF52840", DEVICE_LIST);
    assert_eq!(
        r,
        vec![
            result(MatchQuality::Exact, "Nordic Semi", "nRF52840"),
            result(MatchQuality::Prefix, "Nordic Semi", "nRF52840_xxAA"),
            result(MatchQuality::Contains, "Acme", "XNRF52840"),
        ]
    );
}

#[test]
fn search_orders_group_by_lowercased_name() {
    let list = "h\n\"V\", \"Beta\"\n\"V\", \"alpha\"\n\"V\", \"Gamma\"\n";
    let r = search_devices("a", list);
    let names: Vec<&str> = r.iter().map(|x| x.device.as_str()).collect();
    assert_eq!(names, vec!["alpha", "Beta", "Gamma"]);
    assert_eq!(r[0].quality, MatchQuality::Prefix);
    assert_eq!(r[1].quality, MatchQuality::Contains);
}

#[test]
fn search_keeps_file_order_for_equal_keys() {
    let list = "h\n\"First\", \"ABC\"\n\"Second\", \"abc\"\n";
    let r = search_devices("abc", list);
    assert_eq!(r, vec![result(MatchQuality::Exact, "First", "ABC"), result(MatchQuality::Exact, "Second", "abc")]);
}

#[test]
fn search_without_match_is_empty() {
    assert!(search_devices("zzz", DEVICE_LIST).is_empty());
}

#[test]
fn rank_uses_the_given_lowercased_names() {
    let entries = vec![("V".to_string(), "one".to_string()), ("W".to_string(), "two".to_string())];
    let lowered = vec!["zz".to_string(), "zzz".to_string()];
    let r = rank_device_matches(&entries, &lowered, "zz");
    assert_eq!(r, vec![result(MatchQuality::Exact, "V", "one"), result(MatchQuality::Prefix, "W", "two")]);
}

#[test]
fn resolve_unique_exact_match_among_several() {
    let r = resolve_device_name("nrf52840", DEVICE_LIST).unwrap();
    assert_eq!(r, result(MatchQuality::Exact, "Nordic Semi", "nRF52840"));
}

#[test]
fn resolve_single_match() {
    let r = resolve_device_name("stm32f4", DEVICE_LIST).unwrap();
    assert_eq!(r.device, "STM32F407VG");
    assert_eq!(r.quality, MatchQuality::Prefix);
}

#[test]
fn resolve_without_match_explains() {
    assert_eq!(
        resolve_device_name("zzz", DEVICE_LIST).unwrap_err(),
        "[ERROR] No J-Link device matches 'zzz'.\n[INFO] Try a broader pattern, e.g. 'nrf52' instead of 'nrf52840'.\n[INFO] Or confirm the exact name: cargo run -- --search-device <pattern>"
    );
}

#[test]
fn resolve_several_matches_lists_them() {
    let msg = resolve_device_name("nrf528", DEVICE_LIST).unwrap_err();
    assert_eq!(
        msg,
        "[ERROR] Multiple J-Link devices match 'nrf528' (4 found).\n\
[INFO] Pick the correct device from the list below and re-run with --device <EXACT_NAME>:\n\
[INFO]   Nordic Semi | nRF52832_xxAA\n\
[INFO]   Nordic Semi | nRF52840\n\
[INFO]   Nordic Semi | nRF52840_xxAA\n\
[INFO]   Acme | XNRF52840\n\
\n[INFO] Example: cargo run -- --init --device <EXACT_NAME>"
    );
}

#[test]
fn choose_device_with_two_exact_matches_is_an_error() {
    let ms = vec![result(MatchQuality::Exact, "A", "x"), result(MatchQuality::Exact, "B", "X")];
    assert!(choose_device("x", &ms).unwrap_err().starts_with("[ERROR] Multiple J-Link devices match 'x' (2 found)."));
    let one = vec![result(MatchQuality::Contains, "A", "abc")];
    assert_eq!(choose_device("b", &one).unwrap(), result(MatchQuality::Contains, "A", "abc"));
}

#[test]
fn jlink_version_from_banner() {
    let out = "SEGGER J-Link Commander V7.94a (Compiled Nov 29 2023 13:41:15)\nDLL version V7.94a\n";
    assert_eq!(parse_jlink_version(out), "V7.94a");
}

#[test]
fn jlink_version_at_end_of_line_and_fallbacks() {
    assert_eq!(parse_jlink_version("J-Link Commander V8.10"), "V8.10");
    assert_eq!(parse_jlink_version("no version here\n"), "unknown");
    assert_eq!(parse_jlink_version("Word Vx here\nthen V6.44b ok\n"), "V6.44b");
    assert_eq!(parse_jlink_version("x V\n"), "unknown");
}

#[test]
fn device_cache_name_replaces_non_alphanumerics() {
    assert_eq!(device_cache_file_name("V7.94a"), "jlink_devices_V7_94a.csv");
    assert_eq!(device_cache_file_name("unknown"), "jlink_devices_unknown.csv");
}

#[test]
fn devlist_script_uses_forward_slashes_on_windows() {
    assert_eq!(devlist_script(r"C:\t\d.csv", true), "ExpDevList C:/t/d.csv\nExit\n");
    assert_eq!(devlist_script("/tmp/d.csv", false), "ExpDevList /tmp/d.csv\nExit\n");
}

#[test]
fn commander_names_and_messages() {
    assert_eq!(get_jlink_cmd_name(true), "JLink.exe");
    assert_eq!(get_jlink_cmd_name(false), "JLinkExe");
    assert_eq!(get_null_device(true), "NUL");
    assert_eq!(get_null_device(false), "/dev/null");
    assert_eq!(commander_file_args("/dev/null"), vec!["-NoGui", "1", "-ExitOnError", "1", "-CommandFile", "/dev/null"]);
    assert_eq!(
        commander_missing_message("JLinkExe", "not found"),
        "[ERROR] Failed to run JLinkExe: not found\n[INFO] Is SEGGER J-Link Software installed and in your PATH?\n[INFO] Download from: https://www.segger.com/downloads/jlink/"
    );
    assert_eq!(
        export_failed_message("JLinkExe"),
        "[ERROR] Failed to export J-Link device list database using JLinkExe."
    );
}
