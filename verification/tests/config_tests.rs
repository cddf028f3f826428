use jlink_rtt::config::{
    check_cwd_in_project, choose_config, clean_windows_path, config_lookup, config_line_error_message, config_not_found_message,
    default_config_candidates, find_default_config, get_project_temp_dir, git_root_from_output,
    load_config_text, parse_config, project_temp_dir_name, resolve_project_root, settle_config, AppConfig, CliArgs,
    ConfigMap,
};
use std::hash::{Hash, Hasher};

fn no_args() -> CliArgs {
    CliArgs {
        config: None,
        project_root: None,
        print_config: false,
        init: false,
        jlink_gdb_server: None,
        gdb: None,
        nc: None,
        device: None,
        jlink_if: None,
        speed: None,
        serial: None,
        host: None,
        gdb_port: None,
        rtt_port: None,
        timeout: None,
        log: None,
        gdb_log: None,
        out: None,
        match_pattern: None,
        match_timeout: None,
        no_reset: false,
        no_resume: false,
        stop: false,
        search_device: None,
    }
}

fn map_of(pairs: &[(&str, &str)]) -> ConfigMap {
    ConfigMap { entries: pairs.iter().map(|(k, v)| (k.to_string(), v.to_string())).collect() }
}

#[test]
fn parse_config_reads_assignments_comments_and_blank_lines() {
    let m = parse_config("# comment\n\nDEVICE=nRF52840_xxAA\n  SPEED = 8000  \n").unwrap();
    assert_eq!(m.get("DEVICE"), Some("nRF52840_xxAA".to_string()));
    assert_eq!(m.get("SPEED"), Some("8000".to_string()));
    assert_eq!(m.get("HOST"), None);
    assert_eq!(m.entries.len(), 2);
}

#[test]
fn parse_config_strips_one_pair_of_matching_quotes() {
    let m = parse_config("A=\"x y\"\nB='z'\nC=\"mixed'\nD=\"\nE=''\n").unwrap();
    assert_eq!(m.get("A"), Some("x y".to_string()));
    assert_eq!(m.get("B"), Some("z".to_string()));
    assert_eq!(m.get("C"), Some("\"mixed'".to_string()));
    assert_eq!(m.get("D"), Some("\"".to_string()));
    assert_eq!(m.get("E"), Some("".to_string()));
}

#[test]
fn parse_config_later_assignment_wins() {
    let m = parse_config("HOST=1.2.3.4\nHOST=5.6.7.8\n").unwrap();
    assert_eq!(m.get("HOST"), Some("5.6.7.8".to_string()));
}

#[test]
fn parse_config_value_may_hold_equals_sign_and_crlf_lines() {
    let m = parse_config("PATTERN=a=b\r\nX_1=2\r\n").unwrap();
    assert_eq!(m.get("PATTERN"), Some("a=b".to_string()));
    assert_eq!(m.get("X_1"), Some("2".to_string()));
}

#[test]
fn parse_config_rejects_line_without_equals() {
    let e = parse_config("A=1\n\n  garbage line  \nB=2\n").unwrap_err();
    assert_eq!(e.line_number, 3);
    assert_eq!(e.line, "garbage line");
}

#[test]
fn parse_config_rejects_invalid_keys() {
    assert_eq!(parse_config("1ABC=2\n").unwrap_err().line_number, 1);
    assert_eq!(parse_config("OK=1\nA-B=2\n").unwrap_err().line_number, 2);
    assert_eq!(parse_config("=value\n").unwrap_err().line_number, 1);
    assert!(parse_config("_A9=1\n").is_ok());
}

#[test]
fn config_error_message_names_file_line_and_text() {
    let msg = load_config_text("/p/.jlink-rtt.env", "A=1\nbad\n").unwrap_err();
    assert_eq!(
        msg,
        "[ERROR] Invalid config line in /p/.jlink-rtt.env:2: bad\n[INFO] Fix or remove the line, then re-run. Valid format: KEY=VALUE"
    );
    let e = parse_config("x y\n").unwrap_err();
    assert_eq!(
        config_line_error_message("f", &e),
        "[ERROR] Invalid config line in f:1: x y\n[INFO] Fix or remove the line, then re-run. Valid format: KEY=VALUE"
    );
}

#[test]
fn config_not_found_message_text() {
    assert_eq!(
        config_not_found_message("x.env"),
        "[ERROR] Config file not found: x.env.\n[INFO] Check the --config path, or run without --config to auto-discover .jlink-rtt.env."
    );
}

#[test]
fn clean_windows_path_strips_verbatim_prefixes_on_windows_only() {
    assert_eq!(
        clean_windows_path(r"\\?\UNC\wsl.localhost\ub24\vhdx\".to_string(), true),
        r"\\wsl.localhost\ub24\vhdx\"
    );
    assert_eq!(clean_windows_path(r"\\?\D:\nordic\".to_string(), true), r"D:\nordic\");
    assert_eq!(clean_windows_path(r"D:\nordic".to_string(), true), r"D:\nordic");
    assert_eq!(clean_windows_path(r"\\?\D:\nordic\".to_string(), false), r"\\?\D:\nordic\");
}

#[test]
fn project_temp_dir_name_uses_cleaned_name_and_hash() {
    let root = "/home/user/my-proj.v2";
    let mut hasher = std::collections::hash_map::DefaultHasher::new();
    root.hash(&mut hasher);
    let expected = format!("jlink-rtt-my_proj_v2-{:x}", hasher.finish());
    assert_eq!(project_temp_dir_name(root), expected);
    assert_eq!(get_project_temp_dir("/tmp", root), format!("/tmp/{}", expected));
}

#[test]
fn project_temp_dir_name_without_file_name_is_unknown() {
    assert!(project_temp_dir_name("/").starts_with("jlink-rtt-unknown-"));
}

#[test]
fn cwd_must_be_inside_project_root() {
    assert!(check_cwd_in_project("/a/b/c", "/a/b").is_ok());
    assert!(check_cwd_in_project("/a/b", "/a/b").is_ok());
    assert_eq!(
        check_cwd_in_project("/a/bc", "/a/b").unwrap_err(),
        "[ERROR] Current directory is outside project root: /a/b\n[INFO] Run from within the project, or pass --project-root <DIR>."
    );
}

#[test]
fn project_root_precedence() {
    let explicit = Some("proj".to_string());
    assert_eq!(
        resolve_project_root(&explicit, Some("/abs/proj".to_string()), Some("/git".to_string()), "/cwd", false),
        Ok("/abs/proj".to_string())
    );
    assert_eq!(
        resolve_project_root(&explicit, None, Some("/git".to_string()), "/cwd", false),
        Err("[ERROR] Invalid project root: proj.\n[INFO] Pass a valid directory with --project-root <DIR>.".to_string())
    );
    assert_eq!(resolve_project_root(&None, None, Some("/git".to_string()), "/cwd", false), Ok("/git".to_string()));
    assert_eq!(resolve_project_root(&None, None, None, "/cwd", false), Ok("/cwd".to_string()));
    assert_eq!(
        resolve_project_root(&None, None, Some(r"\\?\C:\repo".to_string()), "/cwd", true),
        Ok(r"C:\repo".to_string())
    );
}

#[test]
fn git_root_output_is_trimmed() {
    assert_eq!(git_root_from_output("/home/u/repo\n"), Some("/home/u/repo".to_string()));
    assert_eq!(git_root_from_output("  \n"), None);
}

#[test]
fn config_candidates_walk_up_to_project_root() {
    assert_eq!(
        default_config_candidates("/a/b/c", "/a"),
        vec!["/a/b/c/.jlink-rtt.env", "/a/b/.jlink-rtt.env", "/a/.jlink-rtt.env"]
    );
    assert_eq!(default_config_candidates("/x", "/y"), vec!["/x/.jlink-rtt.env", "/.jlink-rtt.env"]);
}

#[test]
fn find_default_config_takes_nearest_file() {
    let c = vec!["a".to_string(), "b".to_string(), "c".to_string()];
    assert_eq!(find_default_config(&c, &vec![false, true, true]), Some("b".to_string()));
    assert_eq!(find_default_config(&c, &vec![false, false, false]), None);
}

#[test]
fn resolve_defaults_without_file_or_flags() {
    let c = AppConfig::resolve(no_args(), None, "/proj".to_string(), &ConfigMap::new(), "/tmp/t");
    assert_eq!(c.host, "127.0.0.1");
    assert_eq!(c.jlink_if, "SWD");
    assert_eq!(c.speed, "4000");
    assert_eq!(c.gdb_port, "2331");
    assert_eq!(c.rtt_port, "19021");
    assert_eq!(c.ready_timeout, "10");
    assert_eq!(c.rtt_match_timeout, "30");
    let project_temp = get_project_temp_dir("/tmp/t", "/proj");
    assert_eq!(project_temp, format!("/tmp/t/{}", project_temp_dir_name("/proj")));
    assert_eq!(c.log_file, format!("{}/jlink_gdb_server.log", project_temp));
    assert_eq!(c.gdb_log_file, format!("{}/jlink_gdb_resume.log", project_temp));
    assert_eq!(c.reset_target, "1");
    assert_eq!(c.resume_target, "1");
    assert_eq!(c.device, None);
    assert_eq!(c.project_root, "/proj");
}

#[test]
fn resolve_cli_beats_file_beats_default() {
    let mut args = no_args();
    args.speed = Some("12000".to_string());
    args.device = Some("CLI_DEV".to_string());
    let file = map_of(&[("SPEED", "8000"), ("DEVICE", "FILE_DEV"), ("HOST", "10.0.0.1"), ("RTT_OUT_FILE", "o.log")]);
    let c = AppConfig::resolve(args, Some("/p/.jlink-rtt.env".to_string()), "/p".to_string(), &file, "/tmp");
    assert_eq!(c.speed, "12000");
    assert_eq!(c.device, Some("CLI_DEV".to_string()));
    assert_eq!(c.host, "10.0.0.1");
    assert_eq!(c.rtt_out_file, Some("o.log".to_string()));
    assert_eq!(c.gdb_port, "2331");
    assert_eq!(c.config_file, Some("/p/.jlink-rtt.env".to_string()));
}

#[test]
fn resolve_no_reset_overrides_file() {
    let mut args = no_args();
    args.no_reset = true;
    let file = map_of(&[("RESET_TARGET", "1"), ("RESUME_TARGET", "0")]);
    let c = AppConfig::resolve(args, None, "/p".to_string(), &file, "/tmp");
    assert_eq!(c.reset_target, "0");
    assert_eq!(c.resume_target, "0");
    let mut args = no_args();
    args.no_resume = true;
    let c = AppConfig::resolve(args, None, "/p".to_string(), &map_of(&[("RESET_TARGET", "0")]), "/tmp");
    assert_eq!(c.reset_target, "0");
    assert_eq!(c.resume_target, "0");
}

#[test]
fn resolve_copies_mode_flags() {
    let mut args = no_args();
    args.stop = true;
    args.print_config = true;
    args.search_device = Some("nrf".to_string());
    let c = AppConfig::resolve(args, None, "/p".to_string(), &ConfigMap::new(), "/tmp");
    assert!(c.stop && c.print_config && !c.init);
    assert_eq!(c.search_device, Some("nrf".to_string()));
}

#[test]
fn temp_dir_name_from_parts() {
    assert_eq!(jlink_rtt::config::temp_dir_name_for(Some("a b"), 255), "jlink-rtt-a_b-ff");
    assert_eq!(jlink_rtt::config::temp_dir_name_for(None, 0), "jlink-rtt-unknown-0");
    assert_eq!(jlink_rtt::config::cwd_check_outcome(true, "/r"), Ok(()));
    assert!(jlink_rtt::config::cwd_check_outcome(false, "/r").is_err());
}

#[test]
fn config_lookup_stops_outside_the_project_root() {
    let r = config_lookup(&no_args(), "/elsewhere", "/proj");
    assert_eq!(
        r,
        Err("[ERROR] Current directory is outside project root: /proj\n[INFO] Run from within the project, or pass --project-root <DIR>.".to_string())
    );
    let mut args = no_args();
    args.config = Some("/etc/custom.env".to_string());
    assert!(config_lookup(&args, "/elsewhere", "/proj").is_err());
}

#[test]
fn config_lookup_paths_inside_the_project_root() {
    let r = config_lookup(&no_args(), "/proj/a/b", "/proj").unwrap();
    assert_eq!(r, vec!["/proj/a/b/.jlink-rtt.env", "/proj/a/.jlink-rtt.env", "/proj/.jlink-rtt.env"]);
    let mut args = no_args();
    args.config = Some("/etc/custom.env".to_string());
    assert_eq!(config_lookup(&args, "/proj/a", "/proj").unwrap(), vec!["/etc/custom.env"]);
}

#[test]
fn choose_config_file() {
    let given = Some("/etc/custom.env".to_string());
    let one = vec!["/etc/custom.env".to_string()];
    assert_eq!(choose_config(&given, &one, &vec![true]), Ok(Some("/etc/custom.env".to_string())));
    assert_eq!(
        choose_config(&given, &one, &vec![false]),
        Err("[ERROR] Config file not found: /etc/custom.env.\n[INFO] Check the --config path, or run without --config to auto-discover .jlink-rtt.env.".to_string())
    );
    let cands = vec!["/p/a/.jlink-rtt.env".to_string(), "/p/.jlink-rtt.env".to_string()];
    assert_eq!(choose_config(&None, &cands, &vec![false, true]), Ok(Some("/p/.jlink-rtt.env".to_string())));
    assert_eq!(choose_config(&None, &cands, &vec![false, false]), Ok(None));
}

#[test]
fn settle_config_reads_the_file_or_reports_its_bad_line() {
    let mut args = no_args();
    args.speed = Some("8000".to_string());
    let c = settle_config(
        args,
        "/p".to_string(),
        "/tmp/t",
        Some(("/p/.jlink-rtt.env".to_string(), "SPEED=1000\nHOST=10.0.0.2\n".to_string())),
    )
    .unwrap();
    assert_eq!(c.speed, "8000");
    assert_eq!(c.host, "10.0.0.2");
    assert_eq!(c.config_file, Some("/p/.jlink-rtt.env".to_string()));
    let c = settle_config(no_args(), "/p".to_string(), "/tmp/t", None).unwrap();
    assert_eq!(c.host, "127.0.0.1");
    assert_eq!(c.log_file, format!("/tmp/t/{}/jlink_gdb_server.log", project_temp_dir_name("/p")));
    assert_eq!(c.config_file, None);
    let e = settle_config(
        no_args(),
        "/p".to_string(),
        "/tmp/t",
        Some(("/p/.jlink-rtt.env".to_string(), "# c\nbad line\n".to_string())),
    );
    assert_eq!(
        e.map(|c| c.host),
        Err("[ERROR] Invalid config line in /p/.jlink-rtt.env:2: bad line\n[INFO] Fix or remove the line, then re-run. Valid format: KEY=VALUE".to_string())
    );
}
