//! What the tool does with its settings: which mode a run is in, what
//! `--print-config` prints, the project file `--init` writes, and the hints
//! and reports of the other modes.
use vstd::prelude::*;
use crate::config::{self, AppConfig, CliArgs};
use crate::devices::SearchResult;
use crate::paths::{self, file_name_of, join_path};
use crate::text::{self, chars_of, push_str, string_from_chars, trim_chars};

verus! {

/// What a run of the tool does, in order of precedence.
#[derive(Debug, Clone, Copy, PartialEq, Eq, Structural)]
pub enum Mode {
    /// `--stop`: stop a running session.
    Stop,
    /// `--search-device`: list matching devices.
    SearchDevice,
    /// `--init`: write the project file.
    Init,
    /// `--print-config`: print the settings.
    PrintConfig,
    /// No device is configured: explain how to configure one.
    MissingDevice,
    /// Capture RTT output.
    Capture,
}

/// The mode of a run: `--stop` first, then `--search-device`, `--init`,
/// `--print-config`; without a device, the hint; else a capture.
pub open spec fn mode_of(c: AppConfig) -> Mode {
    if c.stop {
        Mode::Stop
    } else if c.search_device is Some {
        Mode::SearchDevice
    } else if c.init {
        Mode::Init
    } else if c.print_config {
        Mode::PrintConfig
    } else if c.device is None {
        Mode::MissingDevice
    } else {
        Mode::Capture
    }
}

/// The mode of a run.
pub fn select_mode(c: &AppConfig) -> (m: Mode)
    ensures
        m == mode_of(*c),
{
    if c.stop {
        Mode::Stop
    } else if c.search_device.is_some() {
        Mode::SearchDevice
    } else if c.init {
        Mode::Init
    } else if c.print_config {
        Mode::PrintConfig
    } else if c.device.is_none() {
        Mode::MissingDevice
    } else {
        Mode::Capture
    }
}

pub open spec fn views(v: Seq<String>) -> Seq<Seq<char>> {
    v.map_values(|s: String| s@)
}

/// A `KEY=VALUE` line.
pub open spec fn setting_line(key: Seq<char>, value: Seq<char>) -> Seq<char> {
    key + "="@ + value
}

pub open spec fn or_empty(o: Option<String>) -> Seq<char> {
    match o {
        Some(s) => s@,
        None => Seq::empty(),
    }
}

/// A `KEY=VALUE` line when the value is set, else nothing.
pub open spec fn optional_line(key: Seq<char>, o: Option<String>) -> Seq<Seq<char>> {
    match o {
        Some(s) => seq![setting_line(key, s@)],
        None => Seq::empty(),
    }
}

/// What `--print-config` prints, one line each.
pub open spec fn config_report_of(c: AppConfig) -> Seq<Seq<char>> {
    seq![
        setting_line("CONFIG_FILE"@, or_empty(c.config_file)),
        setting_line("PROJECT_ROOT"@, c.project_root@),
    ] + optional_line("JLINK_GDB_SERVER"@, c.jlink_gdb_server) + optional_line("GDB"@, c.gdb)
        + optional_line("NC"@, c.nc) + seq![
        setting_line("HOST"@, c.host@),
        setting_line("DEVICE"@, or_empty(c.device)),
        setting_line("JLINK_IF"@, c.jlink_if@),
        setting_line("SPEED"@, c.speed@),
        setting_line("JLINK_SERIAL"@, or_empty(c.jlink_serial)),
        setting_line("GDB_PORT"@, c.gdb_port@),
        setting_line("RTT_PORT"@, c.rtt_port@),
        setting_line("RTT_READY_TIMEOUT"@, c.ready_timeout@),
        setting_line("LOG_FILE"@, c.log_file@),
        setting_line("GDB_LOG_FILE"@, c.gdb_log_file@),
        setting_line("RTT_OUT_FILE"@, or_empty(c.rtt_out_file)),
        setting_line("RTT_MATCH_PATTERN"@, or_empty(c.rtt_match_pattern)),
        setting_line("RTT_MATCH_TIMEOUT"@, c.rtt_match_timeout@),
        setting_line("RESET_TARGET"@, c.reset_target@),
        setting_line("RESUME_TARGET"@, c.resume_target@),
    ]
}

fn line_of(key: &str, value: &str) -> (r: String)
    ensures
        r@ == setting_line(key@, value@),
{
    let mut v: Vec<char> = Vec::new();
    push_str(&mut v, key);
    push_str(&mut v, "=");
    push_str(&mut v, value);
    string_from_chars(&v)
}

fn line_of_optional(key: &str, value: &Option<String>) -> (r: String)
    ensures
        r@ == setting_line(key@, or_empty(*value)),
{
    proof {
        lemma_empty_literal();
    }
    match value {
        Some(s) => line_of(key, s.as_str()),
        None => line_of(key, ""),
    }
}

proof fn lemma_empty_literal()
    ensures
        ""@ == Seq::<char>::empty(),
{
    reveal_strlit("");
}

fn push_line(r: &mut Vec<String>, line: String)
    ensures
        views(final(r)@) == views(old(r)@).push(line@),
{
    r.push(line);
    proof {
        assert(views(r@) =~= views(old(r)@).push(line@));
    }
}

fn push_optional_line(r: &mut Vec<String>, key: &str, value: &Option<String>)
    ensures
        views(final(r)@) == views(old(r)@) + optional_line(key@, *value),
{
    match value {
        Some(s) => {
            push_line(r, line_of(key, s.as_str()));
            proof {
                assert(views(r@) =~= views(old(r)@) + optional_line(key@, *value));
            }
        },
        None => {
            proof {
                assert(views(r@) =~= views(old(r)@) + optional_line(key@, *value));
            }
        },
    }
}

/// The lines `--print-config` prints: each setting as `KEY=VALUE`, an
/// unset optional command override left out, another unset setting empty.
pub fn config_report(c: &AppConfig) -> (r: Vec<String>)
    ensures
        views(r@) == config_report_of(*c),
{
    proof {
        lemma_empty_literal();
    }
    let mut r: Vec<String> = Vec::new();
    push_line(&mut r, line_of_optional("CONFIG_FILE", &c.config_file));
    push_line(&mut r, line_of("PROJECT_ROOT", c.project_root.as_str()));
    push_optional_line(&mut r, "JLINK_GDB_SERVER", &c.jlink_gdb_server);
    push_optional_line(&mut r, "GDB", &c.gdb);
    push_optional_line(&mut r, "NC", &c.nc);
    push_line(&mut r, line_of("HOST", c.host.as_str()));
    push_line(&mut r, line_of_optional("DEVICE", &c.device));
    push_line(&mut r, line_of("JLINK_IF", c.jlink_if.as_str()));
    push_line(&mut r, line_of("SPEED", c.speed.as_str()));
    push_line(&mut r, line_of_optional("JLINK_SERIAL", &c.jlink_serial));
    push_line(&mut r, line_of("GDB_PORT", c.gdb_port.as_str()));
    push_line(&mut r, line_of("RTT_PORT", c.rtt_port.as_str()));
    push_line(&mut r, line_of("RTT_READY_TIMEOUT", c.ready_timeout.as_str()));
    push_line(&mut r, line_of("LOG_FILE", c.log_file.as_str()));
    push_line(&mut r, line_of("GDB_LOG_FILE", c.gdb_log_file.as_str()));
    push_line(&mut r, line_of_optional("RTT_OUT_FILE", &c.rtt_out_file));
    push_line(&mut r, line_of_optional("RTT_MATCH_PATTERN", &c.rtt_match_pattern));
    push_line(&mut r, line_of("RTT_MATCH_TIMEOUT", c.rtt_match_timeout.as_str()));
    push_line(&mut r, line_of("RESET_TARGET", c.reset_target.as_str()));
    push_line(&mut r, line_of("RESUME_TARGET", c.resume_target.as_str()));
    proof {
        assert(views(r@) =~= config_report_of(*c));
    }
    r
}

/// A `KEY=VALUE` line read as its key and value: split at its first `=`.
pub open spec fn line_pair(line: Seq<char>) -> (Seq<char>, Seq<char>) {
    match text::first_occurrence(line, seq!['='], 0) {
        Some(p) => (line.subrange(0, p), line.subrange(p + 1, line.len() as int)),
        None => (line, Seq::empty()),
    }
}

/// The settings that `KEY=VALUE` lines state, a later line for a key
/// replacing an earlier one.
pub open spec fn lines_settings(lines: Seq<Seq<char>>) -> Map<Seq<char>, Seq<char>> {
    config::settings_map(lines.map_values(|l: Seq<char>| line_pair(l)))
}

/// The lines state `value` for `key`.
pub open spec fn report_states(lines: Seq<Seq<char>>, key: Seq<char>, value: Seq<char>) -> bool {
    lines_settings(lines).contains_key(key) && lines_settings(lines)[key] == value
}

proof fn lemma_line_pair(key: Seq<char>, v: Seq<char>)
    requires
        config::valid_key(key),
    ensures
        line_pair(setting_line(key, v)) == (key, v),
{
    reveal_strlit("=");
    let t = setting_line(key, v);
    assert(t =~= key + seq!['='] + v);
    assert forall|j: int| 0 <= j < key.len() implies t[j] != '=' by {
        assert(t[j] == key[j]);
        lemma_key_char(key[j]);
    }
    text::lemma_first_char_occurrence(t, '=', key.len() as int, 0);
    assert(t.subrange(0, key.len() as int) =~= key);
    assert(t.subrange(key.len() + 1int, t.len() as int) =~= v);
}

proof fn lemma_lines_pairs(kvs: Seq<(Seq<char>, Seq<char>)>)
    requires
        forall|i: int| 0 <= i < kvs.len() ==> config::valid_key(#[trigger] kvs[i].0),
    ensures
        kvs.map_values(|kv: (Seq<char>, Seq<char>)| setting_line(kv.0, kv.1)).map_values(
            |l: Seq<char>| line_pair(l),
        ) == kvs,
{
    let lines = kvs.map_values(|kv: (Seq<char>, Seq<char>)| setting_line(kv.0, kv.1));
    assert forall|i: int| 0 <= i < kvs.len() implies line_pair(lines[i]) == kvs[i] by {
        lemma_line_pair(kvs[i].0, kvs[i].1);
    }
    assert(lines.map_values(|l: Seq<char>| line_pair(l)) =~= kvs);
}

proof fn lemma_settings_map_append(a: Seq<(Seq<char>, Seq<char>)>, b: Seq<(Seq<char>, Seq<char>)>)
    ensures
        config::settings_map(a + b) == config::settings_map(a).union_prefer_right(config::settings_map(b)),
    decreases b.len(),
{
    if b.len() == 0 {
        assert(a + b =~= a);
        assert(config::settings_map(a).union_prefer_right(config::settings_map(b)) =~= config::settings_map(a));
    } else {
        let b1 = b.drop_last();
        lemma_settings_map_append(a, b1);
        assert((a + b).drop_last() =~= a + b1);
        assert((a + b).last() == b.last());
        assert(config::settings_map(a + b) =~= config::settings_map(a).union_prefer_right(
            config::settings_map(b),
        ));
    }
}

spec fn optional_pair(key: Seq<char>, o: Option<String>) -> Seq<(Seq<char>, Seq<char>)> {
    match o {
        Some(s) => seq![(key, s@)],
        None => Seq::empty(),
    }
}

proof fn lemma_optional_pair(key: Seq<char>, o: Option<String>)
    ensures
        optional_line(key, o) == optional_pair(key, o).map_values(
            |kv: (Seq<char>, Seq<char>)| setting_line(kv.0, kv.1),
        ),
        o matches Some(s) ==> config::settings_map(optional_pair(key, o)) == Map::<
            Seq<char>,
            Seq<char>,
        >::empty().insert(key, s@),
        o is None ==> config::settings_map(optional_pair(key, o)) == Map::<Seq<char>, Seq<char>>::empty(),
{
    assert(optional_line(key, o) =~= optional_pair(key, o).map_values(
        |kv: (Seq<char>, Seq<char>)| setting_line(kv.0, kv.1),
    ));
    reveal_with_fuel(config::settings_map, 2);
    if let Some(s) = o {
        assert(optional_pair(key, o).drop_last() =~= Seq::<(Seq<char>, Seq<char>)>::empty());
    }
}

proof fn lemma_report_keys()
    ensures
        ("CONFIG_FILE"@).len() == 11,
        ("PROJECT_ROOT"@).len() == 12,
        ("JLINK_GDB_SERVER"@).len() == 16,
        ("GDB"@).len() == 3,
        ("NC"@).len() == 2,
        ("HOST"@).len() == 4,
        ("DEVICE"@).len() == 6,
        ("JLINK_IF"@).len() == 8,
        ("SPEED"@).len() == 5,
        ("JLINK_SERIAL"@).len() == 12,
        ("GDB_PORT"@).len() == 8,
        ("RTT_PORT"@).len() == 8,
        ("RTT_READY_TIMEOUT"@).len() == 17,
        ("LOG_FILE"@).len() == 8,
        ("GDB_LOG_FILE"@).len() == 12,
        ("RTT_OUT_FILE"@).len() == 12,
        ("RTT_MATCH_PATTERN"@).len() == 17,
        ("RTT_MATCH_TIMEOUT"@).len() == 17,
        ("RESET_TARGET"@).len() == 12,
        ("RESUME_TARGET"@).len() == 13,
        ("CONFIG_FILE"@)[0] == 'C',
        ("PROJECT_ROOT"@)[0] == 'P',
        ("JLINK_GDB_SERVER"@)[0] == 'J',
        ("GDB"@)[0] == 'G',
        ("NC"@)[0] == 'N',
        ("HOST"@)[0] == 'H',
        ("DEVICE"@)[0] == 'D',
        ("JLINK_IF"@)[0] == 'J',
        ("SPEED"@)[0] == 'S',
        ("JLINK_SERIAL"@)[0] == 'J',
        ("GDB_PORT"@)[0] == 'G',
        ("RTT_PORT"@)[0] == 'R',
        ("RTT_READY_TIMEOUT"@)[0] == 'R',
        ("LOG_FILE"@)[0] == 'L',
        ("GDB_LOG_FILE"@)[0] == 'G',
        ("RTT_OUT_FILE"@)[0] == 'R',
        ("RTT_MATCH_PATTERN"@)[0] == 'R',
        ("RTT_MATCH_TIMEOUT"@)[0] == 'R',
        ("RESET_TARGET"@)[0] == 'R',
        ("RESUME_TARGET"@)[0] == 'R',
        config::valid_key("CONFIG_FILE"@),
        config::valid_key("PROJECT_ROOT"@),
        config::valid_key("JLINK_GDB_SERVER"@),
        config::valid_key("GDB"@),
        config::valid_key("NC"@),
        config::valid_key("HOST"@),
        config::valid_key("DEVICE"@),
        config::valid_key("JLINK_IF"@),
        config::valid_key("SPEED"@),
        config::valid_key("JLINK_SERIAL"@),
        config::valid_key("GDB_PORT"@),
        config::valid_key("RTT_PORT"@),
        config::valid_key("RTT_READY_TIMEOUT"@),
        config::valid_key("LOG_FILE"@),
        config::valid_key("GDB_LOG_FILE"@),
        config::valid_key("RTT_OUT_FILE"@),
        config::valid_key("RTT_MATCH_PATTERN"@),
        config::valid_key("RTT_MATCH_TIMEOUT"@),
        config::valid_key("RESET_TARGET"@),
        config::valid_key("RESUME_TARGET"@),
        ("RTT_OUT_FILE"@)[1] == 'T',
        ("RESET_TARGET"@)[1] == 'E',
        ("RTT_READY_TIMEOUT"@)[4] == 'R',
        ("RTT_MATCH_PATTERN"@)[4] == 'M',
        ("RTT_MATCH_TIMEOUT"@)[4] == 'M',
        ("RTT_MATCH_PATTERN"@)[10] == 'P',
        ("RTT_MATCH_TIMEOUT"@)[10] == 'T',
{
    reveal_strlit("CONFIG_FILE");
    reveal_strlit("PROJECT_ROOT");
    reveal_strlit("JLINK_GDB_SERVER");
    reveal_strlit("GDB");
    reveal_strlit("NC");
    reveal_strlit("HOST");
    reveal_strlit("DEVICE");
    reveal_strlit("JLINK_IF");
    reveal_strlit("SPEED");
    reveal_strlit("JLINK_SERIAL");
    reveal_strlit("GDB_PORT");
    reveal_strlit("RTT_PORT");
    reveal_strlit("RTT_READY_TIMEOUT");
    reveal_strlit("LOG_FILE");
    reveal_strlit("GDB_LOG_FILE");
    reveal_strlit("RTT_OUT_FILE");
    reveal_strlit("RTT_MATCH_PATTERN");
    reveal_strlit("RTT_MATCH_TIMEOUT");
    reveal_strlit("RESET_TARGET");
    reveal_strlit("RESUME_TARGET");
}

spec fn report_head_pairs(c: AppConfig) -> Seq<(Seq<char>, Seq<char>)> {
    seq![
        ("CONFIG_FILE"@, (match c.config_file { Some(s) => s@, None => Seq::<char>::empty() })),
        ("PROJECT_ROOT"@, c.project_root@),
    ]
}

spec fn report_fixed_pairs(c: AppConfig) -> Seq<(Seq<char>, Seq<char>)> {
    seq![
        ("HOST"@, c.host@),
        ("DEVICE"@, (match c.device { Some(s) => s@, None => Seq::<char>::empty() })),
        ("JLINK_IF"@, c.jlink_if@),
        ("SPEED"@, c.speed@),
        ("JLINK_SERIAL"@, (match c.jlink_serial { Some(s) => s@, None => Seq::<char>::empty() })),
        ("GDB_PORT"@, c.gdb_port@),
        ("RTT_PORT"@, c.rtt_port@),
        ("RTT_READY_TIMEOUT"@, c.ready_timeout@),
        ("LOG_FILE"@, c.log_file@),
        ("GDB_LOG_FILE"@, c.gdb_log_file@),
        ("RTT_OUT_FILE"@, (match c.rtt_out_file { Some(s) => s@, None => Seq::<char>::empty() })),
        ("RTT_MATCH_PATTERN"@, (match c.rtt_match_pattern { Some(s) => s@, None => Seq::<char>::empty() })),
        ("RTT_MATCH_TIMEOUT"@, c.rtt_match_timeout@),
        ("RESET_TARGET"@, c.reset_target@),
        ("RESUME_TARGET"@, c.resume_target@),
    ]
}

spec fn report_pairs(c: AppConfig) -> Seq<(Seq<char>, Seq<char>)> {
    report_head_pairs(c) + optional_pair("JLINK_GDB_SERVER"@, c.jlink_gdb_server) + optional_pair(
        "GDB"@,
        c.gdb,
    ) + optional_pair("NC"@, c.nc) + report_fixed_pairs(c)
}

proof fn lemma_report_pairs(c: AppConfig)
    ensures
        lines_settings(config_report_of(c)) == config::settings_map(report_head_pairs(c)).union_prefer_right(
            config::settings_map(optional_pair("JLINK_GDB_SERVER"@, c.jlink_gdb_server)),
        ).union_prefer_right(config::settings_map(optional_pair("GDB"@, c.gdb))).union_prefer_right(
            config::settings_map(optional_pair("NC"@, c.nc)),
        ).union_prefer_right(config::settings_map(report_fixed_pairs(c))),
{
    lemma_report_keys();
    let a = report_head_pairs(c);
    let o1 = optional_pair("JLINK_GDB_SERVER"@, c.jlink_gdb_server);
    let o2 = optional_pair("GDB"@, c.gdb);
    let o3 = optional_pair("NC"@, c.nc);
    let b = report_fixed_pairs(c);
    let kvs = report_pairs(c);
    lemma_optional_pair("JLINK_GDB_SERVER"@, c.jlink_gdb_server);
    lemma_optional_pair("GDB"@, c.gdb);
    lemma_optional_pair("NC"@, c.nc);
    assert(config_report_of(c) =~= kvs.map_values(|kv: (Seq<char>, Seq<char>)| setting_line(kv.0, kv.1)));
    assert forall|i: int| 0 <= i < kvs.len() implies config::valid_key(#[trigger] kvs[i].0) by {
        if i < 2 {
            assert(kvs[i] == a[i]);
        } else if i < 2 + o1.len() {
            assert(kvs[i] == o1[i - 2]);
        } else if i < 2 + o1.len() + o2.len() {
            assert(kvs[i] == o2[i - 2 - o1.len()]);
        } else if i < 2 + o1.len() + o2.len() + o3.len() {
            assert(kvs[i] == o3[i - 2 - o1.len() - o2.len()]);
        } else {
            assert(kvs[i] == b[i - 2 - o1.len() - o2.len() - o3.len()]);
        }
    }
    lemma_lines_pairs(kvs);
    lemma_settings_map_append(a + o1 + o2 + o3, b);
    lemma_settings_map_append(a + o1 + o2, o3);
    lemma_settings_map_append(a + o1, o2);
    lemma_settings_map_append(a, o1);
}

proof fn lemma_report_head(c: AppConfig)
    ensures
        config::settings_map(report_head_pairs(c)) == Map::<Seq<char>, Seq<char>>::empty().insert("CONFIG_FILE"@, (match c.config_file { Some(s) => s@, None => Seq::<char>::empty() })).insert("PROJECT_ROOT"@, c.project_root@),
{
    reveal_with_fuel(config::settings_map, 3);
    assert(report_head_pairs(c).drop_last().drop_last() =~= Seq::<(Seq<char>, Seq<char>)>::empty());
}

#[verifier::rlimit(50)]
proof fn lemma_report_fixed(c: AppConfig)
    ensures
        config::settings_map(report_fixed_pairs(c)).contains_key("HOST"@)
            && config::settings_map(report_fixed_pairs(c))["HOST"@] == c.host@,
        config::settings_map(report_fixed_pairs(c)).contains_key("DEVICE"@)
            && config::settings_map(report_fixed_pairs(c))["DEVICE"@] == (match c.device { Some(s) => s@, None => Seq::<char>::empty() }),
        config::settings_map(report_fixed_pairs(c)).contains_key("JLINK_IF"@)
            && config::settings_map(report_fixed_pairs(c))["JLINK_IF"@] == c.jlink_if@,
        config::settings_map(report_fixed_pairs(c)).contains_key("SPEED"@)
            && config::settings_map(report_fixed_pairs(c))["SPEED"@] == c.speed@,
        config::settings_map(report_fixed_pairs(c)).contains_key("JLINK_SERIAL"@)
            && config::settings_map(report_fixed_pairs(c))["JLINK_SERIAL"@] == (match c.jlink_serial { Some(s) => s@, None => Seq::<char>::empty() }),
        config::settings_map(report_fixed_pairs(c)).contains_key("GDB_PORT"@)
            && config::settings_map(report_fixed_pairs(c))["GDB_PORT"@] == c.gdb_port@,
        config::settings_map(report_fixed_pairs(c)).contains_key("RTT_PORT"@)
            && config::settings_map(report_fixed_pairs(c))["RTT_PORT"@] == c.rtt_port@,
        config::settings_map(report_fixed_pairs(c)).contains_key("RTT_READY_TIMEOUT"@)
            && config::settings_map(report_fixed_pairs(c))["RTT_READY_TIMEOUT"@] == c.ready_timeout@,
        config::settings_map(report_fixed_pairs(c)).contains_key("LOG_FILE"@)
            && config::settings_map(report_fixed_pairs(c))["LOG_FILE"@] == c.log_file@,
        config::settings_map(report_fixed_pairs(c)).contains_key("GDB_LOG_FILE"@)
            && config::settings_map(report_fixed_pairs(c))["GDB_LOG_FILE"@] == c.gdb_log_file@,
        config::settings_map(report_fixed_pairs(c)).contains_key("RTT_OUT_FILE"@)
            && config::settings_map(report_fixed_pairs(c))["RTT_OUT_FILE"@] == (match c.rtt_out_file { Some(s) => s@, None => Seq::<char>::empty() }),
        config::settings_map(report_fixed_pairs(c)).contains_key("RTT_MATCH_PATTERN"@)
            && config::settings_map(report_fixed_pairs(c))["RTT_MATCH_PATTERN"@] == (match c.rtt_match_pattern { Some(s) => s@, None => Seq::<char>::empty() }),
        config::settings_map(report_fixed_pairs(c)).contains_key("RTT_MATCH_TIMEOUT"@)
            && config::settings_map(report_fixed_pairs(c))["RTT_MATCH_TIMEOUT"@] == c.rtt_match_timeout@,
        config::settings_map(report_fixed_pairs(c)).contains_key("RESET_TARGET"@)
            && config::settings_map(report_fixed_pairs(c))["RESET_TARGET"@] == c.reset_target@,
        config::settings_map(report_fixed_pairs(c)).contains_key("RESUME_TARGET"@)
            && config::settings_map(report_fixed_pairs(c))["RESUME_TARGET"@] == c.resume_target@,
        !config::settings_map(report_fixed_pairs(c)).contains_key("CONFIG_FILE"@),
        !config::settings_map(report_fixed_pairs(c)).contains_key("PROJECT_ROOT"@),
        !config::settings_map(report_fixed_pairs(c)).contains_key("JLINK_GDB_SERVER"@),
        !config::settings_map(report_fixed_pairs(c)).contains_key("GDB"@),
        !config::settings_map(report_fixed_pairs(c)).contains_key("NC"@),
{
    lemma_report_keys();
    reveal_with_fuel(config::settings_map, 16);
    let mb = Map::<Seq<char>, Seq<char>>::empty().insert("HOST"@, c.host@).insert("DEVICE"@, (match c.device { Some(s) => s@, None => Seq::<char>::empty() })).insert("JLINK_IF"@, c.jlink_if@).insert("SPEED"@, c.speed@).insert("JLINK_SERIAL"@, (match c.jlink_serial { Some(s) => s@, None => Seq::<char>::empty() })).insert("GDB_PORT"@, c.gdb_port@).insert("RTT_PORT"@, c.rtt_port@).insert("RTT_READY_TIMEOUT"@, c.ready_timeout@).insert("LOG_FILE"@, c.log_file@).insert("GDB_LOG_FILE"@, c.gdb_log_file@).insert("RTT_OUT_FILE"@, (match c.rtt_out_file { Some(s) => s@, None => Seq::<char>::empty() })).insert("RTT_MATCH_PATTERN"@, (match c.rtt_match_pattern { Some(s) => s@, None => Seq::<char>::empty() })).insert("RTT_MATCH_TIMEOUT"@, c.rtt_match_timeout@).insert("RESET_TARGET"@, c.reset_target@).insert("RESUME_TARGET"@, c.resume_target@);
    assert(config::settings_map(report_fixed_pairs(c)) == mb);
}

/// Law: what `--print-config` prints, read back as `KEY=VALUE` settings,
/// gives each setting of the run under its own name: the project file and
/// root, the host, device, interface, speed, serial number, ports,
/// timeouts, log and output files, match pattern and the reset and resume
/// switches (an unset one as empty text), and each command override that
/// is set; an override that is not set is not printed.
pub proof fn law_print_config_states_each_setting(c: AppConfig)
    ensures
        report_states(config_report_of(c), "CONFIG_FILE"@,
            (match c.config_file { Some(s) => s@, None => Seq::<char>::empty() })),
        report_states(config_report_of(c), "PROJECT_ROOT"@, c.project_root@),
        report_states(config_report_of(c), "HOST"@, c.host@),
        report_states(config_report_of(c), "DEVICE"@,
            (match c.device { Some(s) => s@, None => Seq::<char>::empty() })),
        report_states(config_report_of(c), "JLINK_IF"@, c.jlink_if@),
        report_states(config_report_of(c), "SPEED"@, c.speed@),
        report_states(config_report_of(c), "JLINK_SERIAL"@,
            (match c.jlink_serial { Some(s) => s@, None => Seq::<char>::empty() })),
        report_states(config_report_of(c), "GDB_PORT"@, c.gdb_port@),
        report_states(config_report_of(c), "RTT_PORT"@, c.rtt_port@),
        report_states(config_report_of(c), "RTT_READY_TIMEOUT"@, c.ready_timeout@),
        report_states(config_report_of(c), "LOG_FILE"@, c.log_file@),
        report_states(config_report_of(c), "GDB_LOG_FILE"@, c.gdb_log_file@),
        report_states(config_report_of(c), "RTT_OUT_FILE"@,
            (match c.rtt_out_file { Some(s) => s@, None => Seq::<char>::empty() })),
        report_states(config_report_of(c), "RTT_MATCH_PATTERN"@,
            (match c.rtt_match_pattern { Some(s) => s@, None => Seq::<char>::empty() })),
        report_states(config_report_of(c), "RTT_MATCH_TIMEOUT"@, c.rtt_match_timeout@),
        report_states(config_report_of(c), "RESET_TARGET"@, c.reset_target@),
        report_states(config_report_of(c), "RESUME_TARGET"@, c.resume_target@),
        c.jlink_gdb_server matches Some(s) ==> report_states(config_report_of(c), "JLINK_GDB_SERVER"@, s@),
        c.jlink_gdb_server is None ==> !lines_settings(config_report_of(c)).contains_key("JLINK_GDB_SERVER"@),
        c.gdb matches Some(s) ==> report_states(config_report_of(c), "GDB"@, s@),
        c.gdb is None ==> !lines_settings(config_report_of(c)).contains_key("GDB"@),
        c.nc matches Some(s) ==> report_states(config_report_of(c), "NC"@, s@),
        c.nc is None ==> !lines_settings(config_report_of(c)).contains_key("NC"@),
{
    lemma_report_keys();
    lemma_report_pairs(c);
    lemma_report_head(c);
    lemma_report_fixed(c);
    lemma_optional_pair("JLINK_GDB_SERVER"@, c.jlink_gdb_server);
    lemma_optional_pair("GDB"@, c.gdb);
    lemma_optional_pair("NC"@, c.nc);
}

// ---------------------------------------------------------------------------
// The project file written by --init
// ---------------------------------------------------------------------------

/// Lines joined, each ended by a line feed.
pub open spec fn join_lines(ls: Seq<Seq<char>>) -> Seq<char>
    decreases ls.len(),
{
    if ls.len() == 0 {
        Seq::empty()
    } else {
        ls[0] + seq!['\n'] + join_lines(ls.drop_first())
    }
}

/// The first line of a project file written by `--init`.
pub open spec fn init_header() -> Seq<char> {
    "# J-Link RTT project configuration"@
}

/// The settings that `--init` writes, in order.
pub open spec fn init_assignments(c: AppConfig, device: Seq<char>) -> Seq<(Seq<char>, Seq<char>)> {
    seq![
        ("DEVICE"@, device),
        ("JLINK_IF"@, c.jlink_if@),
        ("SPEED"@, c.speed@),
        ("HOST"@, c.host@),
        ("GDB_PORT"@, c.gdb_port@),
        ("RTT_PORT"@, c.rtt_port@),
        ("RTT_READY_TIMEOUT"@, c.ready_timeout@),
        ("LOG_FILE"@, c.log_file@),
        ("GDB_LOG_FILE"@, c.gdb_log_file@),
    ] + match c.jlink_serial {
        Some(s) => seq![("JLINK_SERIAL"@, s@)],
        None => Seq::empty(),
    }
}

/// The lines of the project file `--init` writes: a comment, then one
/// `KEY=VALUE` line per setting.
pub open spec fn init_lines(c: AppConfig, device: Seq<char>) -> Seq<Seq<char>> {
    seq![init_header()] + init_assignments(c, device).map_values(
        |kv: (Seq<char>, Seq<char>)| setting_line(kv.0, kv.1),
    )
}

/// The content of the project file `--init` writes for the resolved device.
pub open spec fn init_content_of(c: AppConfig, device: Seq<char>) -> Seq<char> {
    join_lines(init_lines(c, device))
}

proof fn lemma_join_lines_push(ls: Seq<Seq<char>>, l: Seq<char>)
    ensures
        join_lines(ls.push(l)) == join_lines(ls) + l + seq!['\n'],
    decreases ls.len(),
{
    if ls.len() == 0 {
        assert(ls.push(l).drop_first() =~= Seq::<Seq<char>>::empty());
        assert(ls.push(l)[0] == l);
        assert(join_lines(Seq::<Seq<char>>::empty()) == Seq::<char>::empty());
        assert(join_lines(ls.push(l)) =~= l + seq!['\n']);
    } else {
        lemma_join_lines_push(ls.drop_first(), l);
        assert(ls.push(l).drop_first() =~= ls.drop_first().push(l));
        assert(join_lines(ls.push(l)) =~= join_lines(ls) + l + seq!['\n']);
    }
}

fn push_setting_line(v: &mut Vec<char>, key: &str, value: &str, Ghost(ls): Ghost<Seq<Seq<char>>>)
    requires
        old(v)@ == join_lines(ls),
    ensures
        final(v)@ == join_lines(ls.push(setting_line(key@, value@))),
{
    push_str(v, key);
    push_str(v, "=");
    push_str(v, value);
    push_str(v, "\n");
    proof {
        lemma_join_lines_push(ls, setting_line(key@, value@));
        reveal_strlit("\n");
        assert(v@ =~= join_lines(ls.push(setting_line(key@, value@))));
    }
}

/// The project file `--init` writes: the device it resolved, the
/// interface, speed, host, ports, timeout and log files of the settings,
/// and the probe's serial number when one is set.
pub fn init_config_content(c: &AppConfig, device: &str) -> (r: String)
    ensures
        r@ == init_content_of(*c, device@),
{
    let mut v: Vec<char> = Vec::new();
    proof {
        assert(v@ =~= join_lines(Seq::<Seq<char>>::empty()));
    }
    push_str(&mut v, "# J-Link RTT project configuration");
    push_str(&mut v, "\n");
    let ghost ls0 = seq![init_header()];
    proof {
        lemma_join_lines_push(Seq::<Seq<char>>::empty(), init_header());
        reveal_strlit("\n");
        assert(Seq::<Seq<char>>::empty().push(init_header()) =~= ls0);
        assert(v@ =~= join_lines(ls0));
    }
    let ghost ls1 = ls0.push(setting_line("DEVICE"@, device@));
    push_setting_line(&mut v, "DEVICE", device, Ghost(ls0));
    let ghost ls2 = ls1.push(setting_line("JLINK_IF"@, c.jlink_if@));
    push_setting_line(&mut v, "JLINK_IF", c.jlink_if.as_str(), Ghost(ls1));
    let ghost ls3 = ls2.push(setting_line("SPEED"@, c.speed@));
    push_setting_line(&mut v, "SPEED", c.speed.as_str(), Ghost(ls2));
    let ghost ls4 = ls3.push(setting_line("HOST"@, c.host@));
    push_setting_line(&mut v, "HOST", c.host.as_str(), Ghost(ls3));
    let ghost ls5 = ls4.push(setting_line("GDB_PORT"@, c.gdb_port@));
    push_setting_line(&mut v, "GDB_PORT", c.gdb_port.as_str(), Ghost(ls4));
    let ghost ls6 = ls5.push(setting_line("RTT_PORT"@, c.rtt_port@));
    push_setting_line(&mut v, "RTT_PORT", c.rtt_port.as_str(), Ghost(ls5));
    let ghost ls7 = ls6.push(setting_line("RTT_READY_TIMEOUT"@, c.ready_timeout@));
    push_setting_line(&mut v, "RTT_READY_TIMEOUT", c.ready_timeout.as_str(), Ghost(ls6));
    let ghost ls8 = ls7.push(setting_line("LOG_FILE"@, c.log_file@));
    push_setting_line(&mut v, "LOG_FILE", c.log_file.as_str(), Ghost(ls7));
    let ghost ls9 = ls8.push(setting_line("GDB_LOG_FILE"@, c.gdb_log_file@));
    push_setting_line(&mut v, "GDB_LOG_FILE", c.gdb_log_file.as_str(), Ghost(ls8));
    match &c.jlink_serial {
        Some(s) => {
            push_setting_line(&mut v, "JLINK_SERIAL", s.as_str(), Ghost(ls9));
            proof {
                assert(ls9.push(setting_line("JLINK_SERIAL"@, s@)) =~= init_lines(*c, device@));
            }
        },
        None => {
            proof {
                assert(ls9 =~= init_lines(*c, device@));
            }
        },
    }
    string_from_chars(&v)
}


// ---------------------------------------------------------------------------
// Reading back what --init writes
// ---------------------------------------------------------------------------

/// A text with no line feed in it.
pub open spec fn no_line_feed(l: Seq<char>) -> bool {
    forall|k: int| 0 <= k < l.len() ==> l[k] != '\n'
}

/// A value that a project file line carries unchanged: no line feed, no
/// whitespace at either end, and not wrapped in matching quotes.
pub open spec fn plain_value(v: Seq<char>) -> bool {
    &&& no_line_feed(v)
    &&& text::trim_text(v) == v
    &&& config::unquote(v) == v
}

/// A line that `str::lines` gives back as it is when it ends in a line feed.
pub open spec fn single_line(l: Seq<char>) -> bool {
    &&& forall|k: int| 0 <= k < l.len() ==> l[k] != '\n'
    &&& l.len() > 0 ==> l.last() != '\r'
}

proof fn lemma_key_char(c: char)
    requires
        text::ascii_alnum(c) || c == '_',
    ensures
        !text::is_white_space(c),
        c != '=',
        c != '\n',
{
}

proof fn lemma_setting_line_reads_back(key: Seq<char>, v: Seq<char>)
    requires
        config::valid_key(key),
        plain_value(v),
    ensures
        config::line_setting(setting_line(key, v)) == Some(Some((key, v))),
        single_line(setting_line(key, v)),
{
    reveal_strlit("=");
    let t = setting_line(key, v);
    assert(t =~= key + seq!['='] + v);
    assert forall|k: int| 0 <= k < key.len() implies !text::is_white_space(#[trigger] key[k]) && key[k]
        != '=' && key[k] != '\n' by {
        lemma_key_char(key[k]);
    }
    assert(t[0] == key[0]);
    lemma_key_char(key[0]);
    if v.len() > 0 {
        text::lemma_trimmed_ends(v);
        assert(t.last() == v.last());
    } else {
        assert(t.last() == '=');
    }
    text::lemma_trim_unchanged(t);
    assert forall|j: int| 0 <= j < key.len() implies t[j] != '=' by {
        assert(t[j] == key[j]);
    }
    text::lemma_first_char_occurrence(t, '=', key.len() as int, 0);
    assert(t.subrange(0, key.len() as int) =~= key);
    lemma_key_char(key.last());
    text::lemma_trim_unchanged(key);
    assert(t.subrange(key.len() + 1int, t.len() as int) =~= v);
    assert forall|k: int| 0 <= k < t.len() implies t[k] != '\n' by {
        if k < key.len() {
            assert(t[k] == key[k]);
        } else if k > key.len() {
            assert(t[k] == v[k - key.len() - 1]);
        }
    }
}

proof fn lemma_header_is_comment()
    ensures
        config::line_setting(init_header()) == Some(None::<(Seq<char>, Seq<char>)>),
        single_line(init_header()),
{
    reveal_strlit("# J-Link RTT project configuration");
    let h = init_header();
    text::lemma_trim_unchanged(h);
}

proof fn lemma_lines_of_join(ls: Seq<Seq<char>>)
    requires
        forall|k: int| 0 <= k < ls.len() ==> no_line_feed(#[trigger] ls[k]),
    ensures
        text::lines_of(join_lines(ls)) == ls.map_values(|l: Seq<char>| text::strip_cr(l)),
    decreases ls.len(),
{
    if ls.len() == 0 {
        assert(text::lines_of(Seq::<char>::empty()) =~= Seq::<Seq<char>>::empty());
        assert(ls.map_values(|l: Seq<char>| text::strip_cr(l)) =~= Seq::<Seq<char>>::empty());
    } else {
        let rest = ls.drop_first();
        assert forall|k: int| 0 <= k < rest.len() implies no_line_feed(#[trigger] rest[k]) by {
            assert(rest[k] == ls[k + 1]);
        }
        lemma_lines_of_join(rest);
        assert(no_line_feed(ls[0]));
        text::lemma_lines_of_line(ls[0], join_lines(rest));
        assert(seq![text::strip_cr(ls[0])] + rest.map_values(|l: Seq<char>| text::strip_cr(l))
            =~= ls.map_values(|l: Seq<char>| text::strip_cr(l)));
    }
}

/// A `KEY=value` line whose value has no line feed reads as an assignment
/// to that key, whatever the value, also once `str::lines` has dropped a
/// carriage return that ends it.
proof fn lemma_setting_line_key(key: Seq<char>, v: Seq<char>)
    requires
        config::valid_key(key),
        no_line_feed(v),
    ensures
        no_line_feed(setting_line(key, v)),
        text::strip_cr(setting_line(key, v)) == setting_line(key, text::strip_cr(v)),
        config::line_setting(setting_line(key, text::strip_cr(v))) matches Some(Some(kv)) && kv.0 == key,
{
    reveal_strlit("=");
    let l = setting_line(key, v);
    assert(l =~= key + seq!['='] + v);
    assert forall|k: int| 0 <= k < l.len() implies l[k] != '\n' by {
        if k < key.len() {
            assert(l[k] == key[k]);
            lemma_key_char(key[k]);
        } else if k > key.len() {
            assert(l[k] == v[k - key.len() - 1]);
        }
    }
    if v.len() > 0 {
        assert(l.last() == v.last());
        if v.last() == '\r' {
            assert(l.drop_last() =~= key + "="@ + v.drop_last());
        }
    } else {
        assert(l.last() == '=');
    }
    let w = text::strip_cr(v);
    let t0 = setting_line(key, w);
    assert(t0 =~= key + seq!['='] + w);
    let n = key.len() as int;
    assert(t0[0] == key[0]);
    lemma_key_char(key[0]);
    assert(text::white_run_end(t0, 0) == 0);
    assert(t0[n] == '=');
    text::lemma_white_run_start_stops(t0, 0, t0.len() as int, n + 1);
    text::lemma_white_run_start(t0, 0, t0.len() as int);
    let hi = text::white_run_start(t0, 0, t0.len() as int);
    let t = text::trim_text(t0);
    assert(t =~= t0.subrange(0, hi));
    assert(t[n] == '=');
    assert forall|j: int| 0 <= j < n implies t[j] != '=' by {
        assert(t[j] == key[j]);
        lemma_key_char(key[j]);
    }
    text::lemma_first_char_occurrence(t, '=', n, 0);
    assert(t.subrange(0, n) =~= key);
    lemma_key_char(key.last());
    text::lemma_trim_unchanged(key);
}

proof fn lemma_settings_of_lines(
    lines: Seq<Seq<char>>,
    a: Seq<(Seq<char>, Seq<char>)>,
    n: int,
)
    requires
        lines.len() == a.len() + 1,
        config::line_setting(lines[0]) == Some(None::<(Seq<char>, Seq<char>)>),
        forall|k: int| 0 <= k < a.len() ==> config::line_setting(#[trigger] lines[k + 1]) == Some(Some(a[k])),
        1 <= n <= lines.len(),
    ensures
        config::settings_upto(lines, n) == Ok::<Seq<(Seq<char>, Seq<char>)>, int>(a.take(n - 1)),
    decreases n,
{
    if n == 1 {
        assert(a.take(0) =~= Seq::<(Seq<char>, Seq<char>)>::empty());
    } else {
        lemma_settings_of_lines(lines, a, n - 1);
        assert(config::line_setting(lines[(n - 2) + 1]) == Some(Some(a[n - 2])));
        assert(a.take(n - 2).push(a[n - 2]) =~= a.take(n - 1));
    }
}

proof fn lemma_init_keys_valid()
    ensures
        config::valid_key("DEVICE"@),
        config::valid_key("JLINK_IF"@),
        config::valid_key("SPEED"@),
        config::valid_key("HOST"@),
        config::valid_key("GDB_PORT"@),
        config::valid_key("RTT_PORT"@),
        config::valid_key("RTT_READY_TIMEOUT"@),
        config::valid_key("LOG_FILE"@),
        config::valid_key("GDB_LOG_FILE"@),
        config::valid_key("JLINK_SERIAL"@),
{
    reveal_strlit("DEVICE");
    reveal_strlit("JLINK_IF");
    reveal_strlit("SPEED");
    reveal_strlit("HOST");
    reveal_strlit("GDB_PORT");
    reveal_strlit("RTT_PORT");
    reveal_strlit("RTT_READY_TIMEOUT");
    reveal_strlit("LOG_FILE");
    reveal_strlit("GDB_LOG_FILE");
    reveal_strlit("JLINK_SERIAL");
}

/// The nine settings that `--init` writes from the run's settings, as a map
/// of settings holds them: the device, interface, speed, host, ports,
/// timeout and log files.
pub open spec fn holds_init_values(m: Map<Seq<char>, Seq<char>>, c: AppConfig, device: Seq<char>) -> bool {
    &&& m.contains_key("DEVICE"@) && m["DEVICE"@] == device
    &&& m.contains_key("JLINK_IF"@) && m["JLINK_IF"@] == c.jlink_if@
    &&& m.contains_key("SPEED"@) && m["SPEED"@] == c.speed@
    &&& m.contains_key("HOST"@) && m["HOST"@] == c.host@
    &&& m.contains_key("GDB_PORT"@) && m["GDB_PORT"@] == c.gdb_port@
    &&& m.contains_key("RTT_PORT"@) && m["RTT_PORT"@] == c.rtt_port@
    &&& m.contains_key("RTT_READY_TIMEOUT"@) && m["RTT_READY_TIMEOUT"@] == c.ready_timeout@
    &&& m.contains_key("LOG_FILE"@) && m["LOG_FILE"@] == c.log_file@
    &&& m.contains_key("GDB_LOG_FILE"@) && m["GDB_LOG_FILE"@] == c.gdb_log_file@
}

/// What reading back a project file written by `--init` gives: the same
/// keys in the same order, the nine settings written from the run's
/// settings unchanged, and at most the serial number's value altered.
pub open spec fn init_settings_kept(s: Seq<(Seq<char>, Seq<char>)>, c: AppConfig, device: Seq<char>) -> bool {
    let a = init_assignments(c, device);
    &&& s.len() == a.len()
    &&& s.take(9) == a.take(9)
    &&& forall|i: int| 0 <= i < s.len() ==> (#[trigger] s[i]).0 == a[i].0
    &&& holds_init_values(config::settings_map(s), c, device)
}

proof fn lemma_init_values(c: AppConfig, device: Seq<char>, s: Seq<(Seq<char>, Seq<char>)>)
    requires
        9 <= s.len() <= 10,
        s.take(9) == init_assignments(c, device).take(9),
        s.len() == 10 ==> s[9].0 == "JLINK_SERIAL"@,
    ensures
        holds_init_values(config::settings_map(s), c, device),
{
    reveal_strlit("DEVICE");
    reveal_strlit("JLINK_IF");
    reveal_strlit("SPEED");
    reveal_strlit("HOST");
    reveal_strlit("GDB_PORT");
    reveal_strlit("RTT_PORT");
    reveal_strlit("RTT_READY_TIMEOUT");
    reveal_strlit("LOG_FILE");
    reveal_strlit("GDB_LOG_FILE");
    reveal_strlit("JLINK_SERIAL");
    let base = seq![
        ("DEVICE"@, device),
        ("JLINK_IF"@, c.jlink_if@),
        ("SPEED"@, c.speed@),
        ("HOST"@, c.host@),
        ("GDB_PORT"@, c.gdb_port@),
        ("RTT_PORT"@, c.rtt_port@),
        ("RTT_READY_TIMEOUT"@, c.ready_timeout@),
        ("LOG_FILE"@, c.log_file@),
        ("GDB_LOG_FILE"@, c.gdb_log_file@),
    ];
    assert(init_assignments(c, device).take(9) =~= base);
    reveal_with_fuel(config::settings_map, 11);
    let m0 = Map::<Seq<char>, Seq<char>>::empty().insert("DEVICE"@, device).insert(
        "JLINK_IF"@,
        c.jlink_if@,
    ).insert("SPEED"@, c.speed@).insert("HOST"@, c.host@).insert("GDB_PORT"@, c.gdb_port@).insert(
        "RTT_PORT"@,
        c.rtt_port@,
    ).insert("RTT_READY_TIMEOUT"@, c.ready_timeout@).insert("LOG_FILE"@, c.log_file@).insert(
        "GDB_LOG_FILE"@,
        c.gdb_log_file@,
    );
    assert(config::settings_map(base) == m0);
    assert(("JLINK_IF"@)[0] == 'J');
    assert(("GDB_PORT"@)[0] == 'G');
    assert(("RTT_PORT"@)[0] == 'R');
    assert(("LOG_FILE"@)[0] == 'L');
    assert(("GDB_LOG_FILE"@)[0] == 'G');
    assert(("JLINK_SERIAL"@)[0] == 'J');
    assert("JLINK_IF"@ != "GDB_PORT"@);
    assert("JLINK_IF"@ != "RTT_PORT"@);
    assert("JLINK_IF"@ != "LOG_FILE"@);
    assert("GDB_PORT"@ != "RTT_PORT"@);
    assert("GDB_PORT"@ != "LOG_FILE"@);
    assert("RTT_PORT"@ != "LOG_FILE"@);
    assert("GDB_LOG_FILE"@ != "JLINK_SERIAL"@);
    assert(("DEVICE"@).len() == 6);
    assert(("SPEED"@).len() == 5);
    assert(("HOST"@).len() == 4);
    assert(("JLINK_IF"@).len() == 8);
    assert(("GDB_PORT"@).len() == 8);
    assert(("RTT_PORT"@).len() == 8);
    assert(("RTT_READY_TIMEOUT"@).len() == 17);
    assert(("LOG_FILE"@).len() == 8);
    assert(("GDB_LOG_FILE"@).len() == 12);
    assert(m0.contains_key("DEVICE"@) && m0["DEVICE"@] == device);
    assert(m0.contains_key("JLINK_IF"@) && m0["JLINK_IF"@] == c.jlink_if@);
    assert(m0.contains_key("SPEED"@) && m0["SPEED"@] == c.speed@);
    assert(m0.contains_key("HOST"@) && m0["HOST"@] == c.host@);
    assert(m0.contains_key("GDB_PORT"@) && m0["GDB_PORT"@] == c.gdb_port@);
    assert(m0.contains_key("RTT_PORT"@) && m0["RTT_PORT"@] == c.rtt_port@);
    assert(m0.contains_key("RTT_READY_TIMEOUT"@) && m0["RTT_READY_TIMEOUT"@] == c.ready_timeout@);
    assert(m0.contains_key("LOG_FILE"@) && m0["LOG_FILE"@] == c.log_file@);
    assert(m0.contains_key("GDB_LOG_FILE"@) && m0["GDB_LOG_FILE"@] == c.gdb_log_file@);
    assert(holds_init_values(m0, c, device));
    if s.len() == 10 {
        assert(s =~= base.push(s[9]));
        assert(config::settings_map(s) == m0.insert(s[9].0, s[9].1));
    } else {
        assert(s =~= base);
    }
}

/// Law: the project file that `--init` writes reads back with the same
/// keys in the same order and the nine settings written from the run's
/// settings unchanged, when those nine values are plain (no line feed, no
/// surrounding whitespace, no surrounding matching quotes) and the serial
/// number has no line feed; when the serial number is plain too, it reads
/// back as exactly the settings it was written from.
pub proof fn law_init_file_reads_back(c: AppConfig, device: Seq<char>)
    requires
        plain_value(device),
        plain_value(c.jlink_if@),
        plain_value(c.speed@),
        plain_value(c.host@),
        plain_value(c.gdb_port@),
        plain_value(c.rtt_port@),
        plain_value(c.ready_timeout@),
        plain_value(c.log_file@),
        plain_value(c.gdb_log_file@),
        c.jlink_serial matches Some(s) ==> no_line_feed(s@),
    ensures
        config::config_settings(init_content_of(c, device)) matches Ok(s) && init_settings_kept(
            s,
            c,
            device,
        ),
        (c.jlink_serial matches Some(s) ==> plain_value(s@)) ==> config::config_settings(
            init_content_of(c, device),
        ) == Ok::<Seq<(Seq<char>, Seq<char>)>, int>(init_assignments(c, device)),
{
    let a = init_assignments(c, device);
    let ls = init_lines(c, device);
    let lines = ls.map_values(|l: Seq<char>| text::strip_cr(l));
    lemma_init_keys_valid();
    lemma_header_is_comment();
    assert forall|k: int| 0 <= k < 9 implies config::line_setting(#[trigger] ls[k + 1]) == Some(
        Some(a[k]),
    ) && single_line(ls[k + 1]) by {
        assert(ls[k + 1] == setting_line(a[k].0, a[k].1));
        lemma_setting_line_reads_back(a[k].0, a[k].1);
    }
    assert forall|k: int| 0 <= k < 10 implies lines[k] == ls[k] && no_line_feed(#[trigger] ls[k]) by {
        if k > 0 {
            assert(single_line(ls[(k - 1) + 1]));
        }
    }
    let s = match c.jlink_serial {
        Some(v) => {
            lemma_setting_line_key("JLINK_SERIAL"@, v@);
            assert(ls[10] == setting_line("JLINK_SERIAL"@, v@));
            a.take(9).push(config::line_setting(lines[10])->Some_0->Some_0)
        },
        None => a,
    };
    assert forall|k: int| 0 <= k < ls.len() implies no_line_feed(#[trigger] ls[k]) by {
        if k < 10 {
            assert(no_line_feed(ls[k]));
        }
    }
    lemma_lines_of_join(ls);
    assert forall|k: int| 0 <= k < s.len() implies config::line_setting(#[trigger] lines[k + 1])
        == Some(Some(s[k])) by {
        if k < 9 {
            assert(lines[k + 1] == ls[k + 1]);
            assert(s[k] == a[k]);
        }
    }
    lemma_settings_of_lines(lines, s, lines.len() as int);
    assert(s.take(s.len() as int) =~= s);
    assert forall|i: int| 0 <= i < s.len() implies (#[trigger] s[i]).0 == a[i].0 by {
        if i < 9 {
            assert(s[i] == a.take(9)[i]);
        }
    }
    assert(s.take(9) =~= a.take(9));
    lemma_init_values(c, device, s);
    if let Some(v) = c.jlink_serial {
        if plain_value(v@) {
            lemma_setting_line_reads_back("JLINK_SERIAL"@, v@);
            assert(s =~= a);
        }
    }
}

// ---------------------------------------------------------------------------
// Hints and reports of the modes
// ---------------------------------------------------------------------------

/// How the tool names itself in hints, given the file name it was run as:
/// `./<name>` (`.\\<name>` on Windows), else the default binary name.
pub open spec fn exe_display_from(name: Option<Seq<char>>, on_windows: bool) -> Seq<char> {
    match name {
        Some(n) => (if on_windows {
            ".\\"@
        } else {
            "./"@
        }) + n,
        None => if on_windows {
            ".\\jlink-rtt.exe"@
        } else {
            "./jlink-rtt"@
        },
    }
}

/// How the tool names itself in hints, given the path it was run as.
pub open spec fn exe_display_of(run_as: Option<Seq<char>>, on_windows: bool) -> Seq<char> {
    exe_display_from(
        match run_as {
            Some(a) => paths::path_file_name(a),
            None => None,
        },
        on_windows,
    )
}

/// How the tool names itself in hints, given the file name it was run as.
pub fn exe_display_name(name: Option<&str>, on_windows: bool) -> (r: String)
    ensures
        r@ == exe_display_from(
            match name {
                Some(n) => Some(n@),
                None => None,
            },
            on_windows,
        ),
{
    match name {
        Some(n) => {
            if on_windows {
                text::concat2(".\\", n)
            } else {
                text::concat2("./", n)
            }
        },
        None => {
            if on_windows {
                ".\\jlink-rtt.exe".to_owned()
            } else {
                "./jlink-rtt".to_owned()
            }
        },
    }
}

/// How the tool names itself in hints, given the path it was run as.
pub fn current_exe_name(run_as: Option<&str>, on_windows: bool) -> (r: String)
    ensures
        r@ == exe_display_of(
            match run_as {
                Some(a) => Some(a@),
                None => None,
            },
            on_windows,
        ),
{
    let name = match run_as {
        Some(a) => file_name_of(a),
        None => None,
    };
    match name {
        Some(n) => exe_display_name(Some(n.as_str()), on_windows),
        None => exe_display_name(None, on_windows),
    }
}

/// The lines explaining that `--init` needs a device.
pub open spec fn init_needs_device_of(exe: Seq<char>) -> Seq<Seq<char>> {
    seq![
        "[ERROR] DEVICE is required for --init."@,
        "[INFO] Scan the project for the DEVICE name (e.g. NRF52840_XXAA)."@,
        "[INFO] Use --search-device to confirm the exact name:"@,
        "[INFO]   "@ + exe + " --search-device <pattern>"@,
    ]
}

/// The lines explaining that `--init` needs a device.
pub fn init_needs_device(exe: &str) -> (r: Vec<String>)
    ensures
        views(r@) == init_needs_device_of(exe@),
{
    let mut r: Vec<String> = Vec::new();
    push_line(&mut r, "[ERROR] DEVICE is required for --init.".to_owned());
    push_line(&mut r, "[INFO] Scan the project for the DEVICE name (e.g. NRF52840_XXAA).".to_owned());
    push_line(&mut r, "[INFO] Use --search-device to confirm the exact name:".to_owned());
    let mut v: Vec<char> = Vec::new();
    push_str(&mut v, "[INFO]   ");
    push_str(&mut v, exe);
    push_str(&mut v, " --search-device <pattern>");
    push_line(&mut r, string_from_chars(&v));
    proof {
        assert(views(r@) =~= init_needs_device_of(exe@));
    }
    r
}

/// The line announcing the device a fuzzy name resolved to.
pub open spec fn resolved_device_line_of(device: Seq<char>, vendor: Seq<char>) -> Seq<char> {
    "[INFO] Resolved device: "@ + device + " ("@ + vendor + ")"@
}

/// The line announcing the device a fuzzy name resolved to.
pub fn resolved_device_line(found: &SearchResult) -> (r: String)
    ensures
        r@ == resolved_device_line_of(found.device@, found.vendor@),
{
    let mut v: Vec<char> = Vec::new();
    push_str(&mut v, "[INFO] Resolved device: ");
    push_str(&mut v, found.device.as_str());
    push_str(&mut v, " (");
    push_str(&mut v, found.vendor.as_str());
    push_str(&mut v, ")");
    string_from_chars(&v)
}

/// Where `--init` writes the project file: the `--config` path when given,
/// else `.jlink-rtt.env` in the project root.
pub open spec fn init_config_path_of(explicit: Option<Seq<char>>, project_root: Seq<char>) -> Seq<char> {
    match explicit {
        Some(p) => p,
        None => paths::path_join(project_root, config::config_file_name()),
    }
}

/// Where `--init` writes the project file.
pub fn init_config_path(explicit: Option<String>, project_root: &str) -> (r: String)
    ensures
        r@ == init_config_path_of(config::opt_view(explicit), project_root@),
{
    match explicit {
        Some(p) => p,
        None => join_path(project_root, ".jlink-rtt.env"),
    }
}

/// The lines refusing to overwrite an existing project file.
pub open spec fn config_exists_of(path: Seq<char>, exe: Seq<char>) -> Seq<Seq<char>> {
    seq![
        "[ERROR] Config file already exists: "@ + path,
        "[INFO] To inspect it, run:"@,
        "[INFO]   "@ + exe + " --print-config"@,
        "[INFO] To re-create, remove the file first: rm "@ + path,
    ]
}

/// The lines refusing to overwrite an existing project file.
pub fn config_exists_message(path: &str, exe: &str) -> (r: Vec<String>)
    ensures
        views(r@) == config_exists_of(path@, exe@),
{
    let mut r: Vec<String> = Vec::new();
    push_line(&mut r, text::concat2("[ERROR] Config file already exists: ", path));
    push_line(&mut r, "[INFO] To inspect it, run:".to_owned());
    let mut v: Vec<char> = Vec::new();
    push_str(&mut v, "[INFO]   ");
    push_str(&mut v, exe);
    push_str(&mut v, " --print-config");
    push_line(&mut r, string_from_chars(&v));
    push_line(&mut r, text::concat2("[INFO] To re-create, remove the file first: rm ", path));
    proof {
        assert(views(r@) =~= config_exists_of(path@, exe@));
    }
    r
}

/// The probe serial number `--init` records when none is set: the only
/// attached probe's, if exactly one is attached.
pub open spec fn auto_serial_of(configured: Option<Seq<char>>, serials: Seq<Seq<char>>) -> Option<Seq<char>> {
    match configured {
        Some(s) => Some(s),
        None => if serials.len() == 1 {
            Some(serials[0])
        } else {
            None
        },
    }
}

/// The probe serial number `--init` records.
pub fn auto_serial(configured: Option<String>, serials: &Vec<String>) -> (r: Option<String>)
    ensures
        config::opt_view(r) == auto_serial_of(config::opt_view(configured), views(serials@)),
{
    match configured {
        Some(s) => Some(s),
        None => {
            if serials.len() == 1 {
                Some(serials[0].clone())
            } else {
                None
            }
        },
    }
}

/// The lines after `--init` wrote the project file at `path`.
pub open spec fn init_done_of(path: Seq<char>, exe: Seq<char>, on_windows: bool) -> Seq<Seq<char>> {
    seq![
        "[INFO] Created config: "@ + path,
        "[INFO] Config created. Now run the capture command again:"@,
        "[INFO]   "@ + exe + " --out "@ + if on_windows {
            "rtt.log"@
        } else {
            "/tmp/rtt.log"@
        },
    ]
}

/// The lines after `--init` wrote the project file.
pub fn init_done_message(path: &str, exe: &str, on_windows: bool) -> (r: Vec<String>)
    ensures
        views(r@) == init_done_of(path@, exe@, on_windows),
{
    let mut r: Vec<String> = Vec::new();
    push_line(&mut r, text::concat2("[INFO] Created config: ", path));
    push_line(&mut r, "[INFO] Config created. Now run the capture command again:".to_owned());
    let mut v: Vec<char> = Vec::new();
    push_str(&mut v, "[INFO]   ");
    push_str(&mut v, exe);
    push_str(&mut v, " --out ");
    if on_windows {
        push_str(&mut v, "rtt.log");
    } else {
        push_str(&mut v, "/tmp/rtt.log");
    }
    push_line(&mut r, string_from_chars(&v));
    proof {
        assert(views(r@) =~= init_done_of(path@, exe@, on_windows));
    }
    r
}

/// `[INFO]   <serial>` for each serial.
pub open spec fn serial_lines(serials: Seq<Seq<char>>) -> Seq<Seq<char>> {
    serials.map_values(|s: Seq<char>| "[INFO]   "@ + s)
}

/// The `--init` command suggested when no device is configured.
pub open spec fn suggested_init_of(exe: Seq<char>, c: AppConfig, serials: Seq<Seq<char>>) -> Seq<char> {
    exe + " --init --device <DEVICE> --if "@ + c.jlink_if@ + " --speed "@ + c.speed@ + " --host "@
        + c.host@ + " --gdb-port "@ + c.gdb_port@ + " --rtt-port "@ + c.rtt_port@ + " --timeout "@
        + c.ready_timeout@ + if serials.len() == 1 {
        " --serial "@ + serials[0]
    } else if serials.len() > 1 {
        " --serial <SERIAL>"@
    } else {
        Seq::empty()
    }
}

/// The lines printed when no device is configured: how to find the device
/// name, the attached probes when there are several, and the `--init`
/// command to run.
pub open spec fn missing_device_hint_of(exe: Seq<char>, c: AppConfig, serials: Seq<Seq<char>>) -> Seq<
    Seq<char>,
> {
    seq![
        "[INFO] No .jlink-rtt.env found and no --device given."@,
        "[INFO] Scan the project for the DEVICE name (e.g. NRF52840_XXAA)."@,
        "[INFO] Use --search-device to confirm the exact name:"@,
        "[INFO]   "@ + exe + " --search-device <pattern>"@,
    ] + (if serials.len() > 1 {
        seq![
            "[INFO] Multiple J-Link probes detected. Ask the user which serial to use."@,
            "[INFO] Available serials:"@,
        ] + serial_lines(serials)
    } else {
        Seq::empty()
    }) + seq![
        "[INFO] Then run:"@,
        "[INFO]   "@ + suggested_init_of(exe, c, serials),
        "[INFO] Review all parameters above before executing. If the project uses a different interface (e.g. JTAG), adjust --if."@,
    ]
}

/// The lines printed when no device is configured.
pub fn missing_device_hint(exe: &str, c: &AppConfig, serials: &Vec<String>) -> (r: Vec<String>)
    ensures
        views(r@) == missing_device_hint_of(exe@, *c, views(serials@)),
{
    proof {
        lemma_empty_literal();
    }
    let ghost ss = views(serials@);
    let mut r: Vec<String> = Vec::new();
    push_line(&mut r, "[INFO] No .jlink-rtt.env found and no --device given.".to_owned());
    push_line(&mut r, "[INFO] Scan the project for the DEVICE name (e.g. NRF52840_XXAA).".to_owned());
    push_line(&mut r, "[INFO] Use --search-device to confirm the exact name:".to_owned());
    let mut v: Vec<char> = Vec::new();
    push_str(&mut v, "[INFO]   ");
    push_str(&mut v, exe);
    push_str(&mut v, " --search-device <pattern>");
    push_line(&mut r, string_from_chars(&v));
    let mut cmd: Vec<char> = Vec::new();
    push_str(&mut cmd, exe);
    push_str(&mut cmd, " --init --device <DEVICE> --if ");
    push_str(&mut cmd, c.jlink_if.as_str());
    push_str(&mut cmd, " --speed ");
    push_str(&mut cmd, c.speed.as_str());
    push_str(&mut cmd, " --host ");
    push_str(&mut cmd, c.host.as_str());
    push_str(&mut cmd, " --gdb-port ");
    push_str(&mut cmd, c.gdb_port.as_str());
    push_str(&mut cmd, " --rtt-port ");
    push_str(&mut cmd, c.rtt_port.as_str());
    push_str(&mut cmd, " --timeout ");
    push_str(&mut cmd, c.ready_timeout.as_str());
    let ghost head = views(r@);
    if serials.len() == 1 {
        push_str(&mut cmd, " --serial ");
        push_str(&mut cmd, serials[0].as_str());
    } else if serials.len() > 1 {
        push_line(
            &mut r,
            "[INFO] Multiple J-Link probes detected. Ask the user which serial to use.".to_owned(),
        );
        push_line(&mut r, "[INFO] Available serials:".to_owned());
        let ghost mid = views(r@);
        let mut k: usize = 0;
        while k < serials.len()
            invariant
                k <= serials@.len(),
                ss == views(serials@),
                views(r@) == mid + serial_lines(ss.take(k as int)),
            decreases serials.len() - k,
        {
            push_line(&mut r, text::concat2("[INFO]   ", serials[k].as_str()));
            proof {
                assert(serial_lines(ss.take(k + 1)) =~= serial_lines(ss.take(k as int)).push(
                    "[INFO]   "@ + ss[k as int],
                ));
            }
            k = k + 1;
        }
        proof {
            assert(ss.take(ss.len() as int) =~= ss);
        }
        push_str(&mut cmd, " --serial <SERIAL>");
    }
    proof {
        assert(cmd@ =~= suggested_init_of(exe@, *c, ss));
    }
    push_line(&mut r, "[INFO] Then run:".to_owned());
    push_line(&mut r, text::concat2("[INFO]   ", string_from_chars(&cmd).as_str()));
    push_line(
        &mut r,
        "[INFO] Review all parameters above before executing. If the project uses a different interface (e.g. JTAG), adjust --if.".to_owned(),
    );
    proof {
        assert(views(r@) =~= missing_device_hint_of(exe@, *c, ss));
    }
    r
}

/// What `--search-device` prints, and whether it succeeds: one
/// `vendor | device` line per match, or a hint when nothing matched.
pub open spec fn search_report_of(pattern: Seq<char>, results: Seq<(crate::devices::MatchQuality, Seq<char>, Seq<char>)>) -> (
    Seq<Seq<char>>,
    bool,
) {
    if results.len() == 0 {
        (
            seq![
                "[INFO] No J-Link devices match '"@ + pattern + "'."@,
                "[INFO] Try a broader pattern, e.g. 'nrf52' instead of 'nrf52840'."@,
            ],
            false,
        )
    } else {
        (results.map_values(|r: (crate::devices::MatchQuality, Seq<char>, Seq<char>)| r.1 + " | "@ + r.2), true)
    }
}

/// What `--search-device` prints, and whether it succeeds.
pub fn search_report(pattern: &str, results: &Vec<SearchResult>) -> (r: (Vec<String>, bool))
    ensures
        (views(r.0@), r.1) == search_report_of(pattern@, results@.map_values(|m: SearchResult| m@)),
{
    let ghost ms = results@.map_values(|m: SearchResult| m@);
    let mut lines: Vec<String> = Vec::new();
    if results.len() == 0 {
        let mut v: Vec<char> = Vec::new();
        push_str(&mut v, "[INFO] No J-Link devices match '");
        push_str(&mut v, pattern);
        push_str(&mut v, "'.");
        push_line(&mut lines, string_from_chars(&v));
        push_line(&mut lines, "[INFO] Try a broader pattern, e.g. 'nrf52' instead of 'nrf52840'.".to_owned());
        proof {
            assert(views(lines@) =~= search_report_of(pattern@, ms).0);
        }
        return (lines, false);
    }
    let mut k: usize = 0;
    while k < results.len()
        invariant
            k <= results@.len(),
            ms == results@.map_values(|m: SearchResult| m@),
            views(lines@) == ms.take(k as int).map_values(
                |r: (crate::devices::MatchQuality, Seq<char>, Seq<char>)| r.1 + " | "@ + r.2,
            ),
        decreases results.len() - k,
    {
        let mut v: Vec<char> = Vec::new();
        push_str(&mut v, results[k].vendor.as_str());
        push_str(&mut v, " | ");
        push_str(&mut v, results[k].device.as_str());
        push_line(&mut lines, string_from_chars(&v));
        proof {
            assert(ms.take(k + 1).map_values(
                |r: (crate::devices::MatchQuality, Seq<char>, Seq<char>)| r.1 + " | "@ + r.2,
            ) =~= ms.take(k as int).map_values(
                |r: (crate::devices::MatchQuality, Seq<char>, Seq<char>)| r.1 + " | "@ + r.2,
            ).push(ms[k as int].1 + " | "@ + ms[k as int].2));
        }
        k = k + 1;
    }
    proof {
        assert(ms.take(ms.len() as int) =~= ms);
    }
    (lines, true)
}

/// The `pkill -f` patterns that find the GDB servers of a session's ports.
pub open spec fn pkill_patterns_of(c: AppConfig) -> Seq<Seq<char>> {
    seq![
        "JLinkGDBServerCLExe.*-port "@ + c.gdb_port@ + ".*-RTTTelnetPort "@ + c.rtt_port@,
        "JLinkGDBServer.*-port "@ + c.gdb_port@ + ".*-RTTTelnetPort "@ + c.rtt_port@,
    ]
}

/// The `pkill -f` patterns that find the GDB servers of a session's ports.
pub fn pkill_patterns(c: &AppConfig) -> (r: Vec<String>)
    ensures
        views(r@) == pkill_patterns_of(*c),
{
    let mut r: Vec<String> = Vec::new();
    let mut a: Vec<char> = Vec::new();
    push_str(&mut a, "JLinkGDBServerCLExe.*-port ");
    push_str(&mut a, c.gdb_port.as_str());
    push_str(&mut a, ".*-RTTTelnetPort ");
    push_str(&mut a, c.rtt_port.as_str());
    push_line(&mut r, string_from_chars(&a));
    let mut b: Vec<char> = Vec::new();
    push_str(&mut b, "JLinkGDBServer.*-port ");
    push_str(&mut b, c.gdb_port.as_str());
    push_str(&mut b, ".*-RTTTelnetPort ");
    push_str(&mut b, c.rtt_port.as_str());
    push_line(&mut r, string_from_chars(&b));
    proof {
        assert(views(r@) =~= pkill_patterns_of(*c));
    }
    r
}

/// The process id recorded in a session's PID file, if any.
pub fn pid_from_file(content: &str) -> (r: Option<String>)
    ensures
        r matches Some(p) ==> p@ == text::trim_text(content@) && p@.len() > 0,
        r is None ==> text::trim_text(content@).len() == 0,
{
    let v = chars_of(content);
    let t = trim_chars(&v);
    if t.len() == 0 {
        None
    } else {
        Some(string_from_chars(&t))
    }
}

/// The line announcing that a running session is stopped.
pub fn stopping_session_line(pid: &str) -> (r: String)
    ensures
        r@ == "[INFO] Stopping running orchestrator session (PID "@ + pid@ + ")..."@,
{
    let mut v: Vec<char> = Vec::new();
    push_str(&mut v, "[INFO] Stopping running orchestrator session (PID ");
    push_str(&mut v, pid);
    push_str(&mut v, ")...");
    string_from_chars(&v)
}

/// What `--stop` reports, and whether it succeeds: success when a session
/// was signalled, and always on Windows, where `taskkill` is not checked.
pub open spec fn stop_report_of(stopped_any: bool, on_unix: bool, rtt_port: Seq<char>) -> (Seq<char>, bool) {
    if stopped_any || !on_unix {
        ("[INFO] Stop signal sent to RTT session (port "@ + rtt_port + ")."@, true)
    } else {
        ("[WARN] No running RTT session found for this project."@, false)
    }
}

/// What `--stop` reports, and whether it succeeds.
pub fn stop_report(stopped_any: bool, on_unix: bool, rtt_port: &str) -> (r: (String, bool))
    ensures
        (r.0@, r.1) == stop_report_of(stopped_any, on_unix, rtt_port@),
{
    if stopped_any || !on_unix {
        let mut v: Vec<char> = Vec::new();
        push_str(&mut v, "[INFO] Stop signal sent to RTT session (port ");
        push_str(&mut v, rtt_port);
        push_str(&mut v, ").");
        (string_from_chars(&v), true)
    } else {
        ("[WARN] No running RTT session found for this project.".to_owned(), false)
    }
}


/// Law: a run in a project whose file `--init` wrote, with none of these
/// settings given on the command line, uses the settings `--init`
/// recorded: the device, interface, speed, host, ports, timeout, log
/// files and probe serial number.
pub proof fn law_init_then_resolve(
    c: AppConfig,
    device: Seq<char>,
    args: CliArgs,
    config_file: Option<Seq<char>>,
    project_root: Seq<char>,
    temp_dir: Seq<char>,
    run: AppConfig,
)
    requires
        args.device is None,
        args.jlink_if is None,
        args.speed is None,
        args.host is None,
        args.gdb_port is None,
        args.rtt_port is None,
        args.timeout is None,
        args.log is None,
        args.gdb_log is None,
        args.serial is None,
        config::resolves_to(
            run,
            args,
            config_file,
            project_root,
            config::settings_map(init_assignments(c, device)),
            temp_dir,
        ),
    ensures
        config::opt_view(run.device) == Some(device),
        run.jlink_if@ == c.jlink_if@,
        run.speed@ == c.speed@,
        run.host@ == c.host@,
        run.gdb_port@ == c.gdb_port@,
        run.rtt_port@ == c.rtt_port@,
        run.ready_timeout@ == c.ready_timeout@,
        run.log_file@ == c.log_file@,
        run.gdb_log_file@ == c.gdb_log_file@,
        config::opt_view(run.jlink_serial) == config::opt_view(c.jlink_serial),
{
    lemma_init_keys_valid();
    reveal_strlit("DEVICE");
    reveal_strlit("JLINK_IF");
    reveal_strlit("SPEED");
    reveal_strlit("HOST");
    reveal_strlit("GDB_PORT");
    reveal_strlit("RTT_PORT");
    reveal_strlit("RTT_READY_TIMEOUT");
    reveal_strlit("LOG_FILE");
    reveal_strlit("GDB_LOG_FILE");
    reveal_strlit("JLINK_SERIAL");
    let a = init_assignments(c, device);
    let base = seq![
        ("DEVICE"@, device),
        ("JLINK_IF"@, c.jlink_if@),
        ("SPEED"@, c.speed@),
        ("HOST"@, c.host@),
        ("GDB_PORT"@, c.gdb_port@),
        ("RTT_PORT"@, c.rtt_port@),
        ("RTT_READY_TIMEOUT"@, c.ready_timeout@),
        ("LOG_FILE"@, c.log_file@),
        ("GDB_LOG_FILE"@, c.gdb_log_file@),
    ];
    reveal_with_fuel(config::settings_map, 11);
    let m0 = Map::<Seq<char>, Seq<char>>::empty().insert("DEVICE"@, device).insert(
        "JLINK_IF"@,
        c.jlink_if@,
    ).insert("SPEED"@, c.speed@).insert("HOST"@, c.host@).insert("GDB_PORT"@, c.gdb_port@).insert(
        "RTT_PORT"@,
        c.rtt_port@,
    ).insert("RTT_READY_TIMEOUT"@, c.ready_timeout@).insert("LOG_FILE"@, c.log_file@).insert(
        "GDB_LOG_FILE"@,
        c.gdb_log_file@,
    );
    assert(config::settings_map(base) == m0);
    assert(("JLINK_IF"@)[0] == 'J');
    assert(("GDB_PORT"@)[0] == 'G');
    assert(("RTT_PORT"@)[0] == 'R');
    assert(("LOG_FILE"@)[0] == 'L');
    assert(("GDB_LOG_FILE"@)[0] == 'G');
    assert(("JLINK_SERIAL"@)[0] == 'J');
    assert("JLINK_IF"@ != "GDB_PORT"@);
    assert("JLINK_IF"@ != "RTT_PORT"@);
    assert("JLINK_IF"@ != "LOG_FILE"@);
    assert("GDB_PORT"@ != "RTT_PORT"@);
    assert("GDB_PORT"@ != "LOG_FILE"@);
    assert("RTT_PORT"@ != "LOG_FILE"@);
    assert("GDB_LOG_FILE"@ != "JLINK_SERIAL"@);
    match c.jlink_serial {
        Some(s) => {
            assert(a =~= base.push(("JLINK_SERIAL"@, s@)));
            assert(config::settings_map(a) == m0.insert("JLINK_SERIAL"@, s@));
        },
        None => {
            assert(a =~= base);
        },
    }
}

} // verus!
