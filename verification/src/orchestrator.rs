//! Running a session: the J-Link GDB server's command line, the J-Link
//! Commander script that resets and resumes the target, waiting for the
//! ports, and the end of an RTT capture.
use vstd::prelude::*;
use crate::config::{self, AppConfig};
use crate::numbers::{self, decimal_string, parse_u32, parse_u64};
use crate::text::{self, chars_of, contains_str, push_str, split_lines, string_from_chars, text_eq};

verus! {

pub open spec fn device_arg(device: Option<String>) -> Seq<char> {
    match device {
        Some(d) => d@,
        None => Seq::empty(),
    }
}

/// The arguments of `JLinkGDBServer` for a session.
pub open spec fn gdb_server_args_of(c: AppConfig) -> Seq<Seq<char>> {
    seq![
        "-device"@,
        device_arg(c.device),
        "-if"@,
        c.jlink_if@,
        "-speed"@,
        c.speed@,
        "-port"@,
        c.gdb_port@,
        "-RTTTelnetPort"@,
        c.rtt_port@,
    ] + match c.jlink_serial {
        Some(s) => seq!["-select"@, "USB="@ + s@],
        None => Seq::empty(),
    }
}

pub open spec fn views(v: Seq<String>) -> Seq<Seq<char>> {
    v.map_values(|s: String| s@)
}

fn device_or_empty(device: &Option<String>) -> (r: String)
    ensures
        r@ == device_arg(*device),
{
    match device {
        Some(d) => d.clone(),
        None => String::new(),
    }
}

/// The arguments of `JLinkGDBServer` for a session: device, interface,
/// speed, GDB port and RTT telnet port, and the probe's serial number
/// when one is set.
pub fn gdb_server_args(c: &AppConfig) -> (r: Vec<String>)
    ensures
        views(r@) == gdb_server_args_of(*c),
{
    let mut r: Vec<String> = Vec::new();
    r.push("-device".to_owned());
    r.push(device_or_empty(&c.device));
    r.push("-if".to_owned());
    r.push(c.jlink_if.clone());
    r.push("-speed".to_owned());
    r.push(c.speed.clone());
    r.push("-port".to_owned());
    r.push(c.gdb_port.clone());
    r.push("-RTTTelnetPort".to_owned());
    r.push(c.rtt_port.clone());
    match &c.jlink_serial {
        Some(s) => {
            r.push("-select".to_owned());
            r.push(text::concat2("USB=", s.as_str()));
        },
        None => {},
    }
    proof {
        assert(views(r@) =~= gdb_server_args_of(*c));
    }
    r
}

pub open spec fn start_message_of(c: AppConfig) -> Seq<char> {
    "[INFO] Starting JLinkGDBServer for "@ + match c.device {
        Some(d) => d@,
        None => "unknown"@,
    } + " on GDB "@ + c.host@ + ":"@ + c.gdb_port@ + ", RTT "@ + c.host@ + ":"@ + c.rtt_port@
        + "."@
}

/// The line announcing the start of the J-Link GDB server.
pub fn gdb_server_start_message(c: &AppConfig) -> (r: String)
    ensures
        r@ == start_message_of(*c),
{
    let mut v: Vec<char> = Vec::new();
    push_str(&mut v, "[INFO] Starting JLinkGDBServer for ");
    match &c.device {
        Some(d) => push_str(&mut v, d.as_str()),
        None => push_str(&mut v, "unknown"),
    }
    push_str(&mut v, " on GDB ");
    push_str(&mut v, c.host.as_str());
    push_str(&mut v, ":");
    push_str(&mut v, c.gdb_port.as_str());
    push_str(&mut v, ", RTT ");
    push_str(&mut v, c.host.as_str());
    push_str(&mut v, ":");
    push_str(&mut v, c.rtt_port.as_str());
    push_str(&mut v, ".");
    string_from_chars(&v)
}

/// The J-Link Commander script that resets (when `RESET_TARGET` is "1")
/// and resumes the target; none when `RESUME_TARGET` is "0".
pub open spec fn reset_script_of(c: AppConfig) -> Option<Seq<char>> {
    if c.resume_target@ == "0"@ {
        None
    } else if c.reset_target@ == "1"@ {
        Some("r\ng\nq\n"@)
    } else {
        Some("g\nq\n"@)
    }
}

/// The J-Link Commander script that resets and resumes the target, or none
/// when the target is not to be resumed.
pub fn reset_script(c: &AppConfig) -> (r: Option<String>)
    ensures
        config::opt_view(r) == reset_script_of(*c),
{
    if text_eq(c.resume_target.as_str(), "0") {
        None
    } else if text_eq(c.reset_target.as_str(), "1") {
        Some("r\ng\nq\n".to_owned())
    } else {
        Some("g\nq\n".to_owned())
    }
}

/// The arguments of J-Link Commander that run the reset script: on Windows
/// the script's path is written with forward slashes.
pub open spec fn commander_args_of(c: AppConfig, script_path: Seq<char>, on_windows: bool) -> Seq<
    Seq<char>,
> {
    seq![
        "-device"@,
        device_arg(c.device),
        "-if"@,
        c.jlink_if@,
        "-speed"@,
        c.speed@,
        "-NoGui"@,
        "1"@,
        "-ExitOnError"@,
        "1"@,
        "-CommanderScript"@,
        if on_windows {
            text::replace_char_text(script_path, '\\', '/')
        } else {
            script_path
        },
    ] + match c.jlink_serial {
        Some(s) => seq!["-SelectEmuBySN"@, s@],
        None => Seq::empty(),
    }
}

/// The arguments of J-Link Commander that run the reset script.
pub fn commander_args(c: &AppConfig, script_path: &str, on_windows: bool) -> (r: Vec<String>)
    ensures
        views(r@) == commander_args_of(*c, script_path@, on_windows),
{
    let mut r: Vec<String> = Vec::new();
    r.push("-device".to_owned());
    r.push(device_or_empty(&c.device));
    r.push("-if".to_owned());
    r.push(c.jlink_if.clone());
    r.push("-speed".to_owned());
    r.push(c.speed.clone());
    r.push("-NoGui".to_owned());
    r.push("1".to_owned());
    r.push("-ExitOnError".to_owned());
    r.push("1".to_owned());
    r.push("-CommanderScript".to_owned());
    if on_windows {
        let mut v: Vec<char> = Vec::new();
        text::push_replaced(&mut v, script_path, '\\', '/');
        proof {
            assert(v@ =~= text::replace_char_text(script_path@, '\\', '/'));
        }
        r.push(string_from_chars(&v));
    } else {
        r.push(script_path.to_owned());
    }
    match &c.jlink_serial {
        Some(s) => {
            r.push("-SelectEmuBySN".to_owned());
            r.push(s.clone());
        },
        None => {},
    }
    proof {
        assert(views(r@) =~= commander_args_of(*c, script_path@, on_windows));
    }
    r
}

/// The last 160 lines of a log, the part printed when a tool fails.
pub open spec fn log_tail_of(content: Seq<char>) -> Seq<Seq<char>> {
    let ls = text::lines_of(content);
    if ls.len() > 160 {
        ls.subrange(ls.len() - 160, ls.len() as int)
    } else {
        ls
    }
}

/// The last 160 lines of a log.
pub fn log_tail(content: &str) -> (r: Vec<String>)
    ensures
        views(r@) == log_tail_of(content@),
{
    let cv = chars_of(content);
    let lines = split_lines(&cv);
    let n = lines.len();
    let start: usize = if n > 160 {
        n - 160
    } else {
        0
    };
    let mut r: Vec<String> = Vec::new();
    let mut i = start;
    while i < n
        invariant
            start <= i <= n,
            n == lines@.len(),
            lines@.len() == text::lines_of(content@).len(),
            forall|k: int| 0 <= k < n ==> (#[trigger] lines@[k])@ == text::lines_of(content@)[k],
            views(r@) == text::lines_of(content@).subrange(start as int, i as int),
        decreases n - i,
    {
        let ghost before = views(r@);
        r.push(string_from_chars(&lines[i]));
        proof {
            let ls = text::lines_of(content@);
            assert(views(r@) =~= before.push(lines@[i as int]@));
            assert(ls.subrange(start as int, i + 1) =~= ls.subrange(start as int, i as int).push(ls[i as int]));
        }
        i = i + 1;
    }
    proof {
        assert(views(r@) =~= log_tail_of(content@));
    }
    r
}

// ---------------------------------------------------------------------------
// Waiting for a port
// ---------------------------------------------------------------------------

/// What to do next while waiting for a port of the GDB server.
pub enum WaitStep {
    /// Look at the clock.
    CheckClock,
    /// See whether the GDB server has exited.
    CheckServer,
    /// Try to connect to the port.
    TryConnect,
    /// Pause 200 ms, then look at the clock again.
    Pause,
    /// The port accepts connections.
    Ready,
    /// Give up: print the server's log, then report this message.
    Failed(String),
}

/// What the last step found.
pub enum WaitEvent {
    Clock { before_deadline: bool },
    Server { exit_status: Option<String> },
    Connect { accepted: bool },
    Paused,
}

pub open spec fn server_stopped_message(name: Seq<char>, status: Seq<char>) -> Seq<char> {
    "[ERROR] JLinkGDBServer stopped before "@ + name + " port became ready. Exit status: "@ + status
}

pub open spec fn port_timeout_message(name: Seq<char>, address: Seq<char>) -> Seq<char> {
    "[ERROR] Timed out waiting for "@ + name + " port "@ + address
        + ".\n[INFO] Check the JLinkGDBServer log above.\n[INFO] Or increase the timeout: --timeout 20"@
}

/// Whether `step` follows `event` while waiting for the port `name` at
/// `address`: until the deadline, give up if the server exited, be done
/// if the port accepts a connection, else pause and try again; past the
/// deadline, give up.
pub open spec fn wait_transition(name: Seq<char>, address: Seq<char>, event: WaitEvent, step: WaitStep) -> bool {
    match event {
        WaitEvent::Clock { before_deadline } => if before_deadline {
            step is CheckServer
        } else {
            step matches WaitStep::Failed(m) && m@ == port_timeout_message(name, address)
        },
        WaitEvent::Server { exit_status } => match exit_status {
            Some(s) => step matches WaitStep::Failed(m) && m@ == server_stopped_message(name, s@),
            None => step is TryConnect,
        },
        WaitEvent::Connect { accepted } => if accepted {
            step is Ready
        } else {
            step is Pause
        },
        WaitEvent::Paused => step is CheckClock,
    }
}

/// The next step while waiting for the port `name` at `address`.
pub fn next_wait_step(name: &str, address: &str, event: WaitEvent) -> (r: WaitStep)
    ensures
        wait_transition(name@, address@, event, r),
{
    match event {
        WaitEvent::Clock { before_deadline } => {
            if before_deadline {
                WaitStep::CheckServer
            } else {
                let mut v: Vec<char> = Vec::new();
                push_str(&mut v, "[ERROR] Timed out waiting for ");
                push_str(&mut v, name);
                push_str(&mut v, " port ");
                push_str(&mut v, address);
                push_str(
                    &mut v,
                    ".\n[INFO] Check the JLinkGDBServer log above.\n[INFO] Or increase the timeout: --timeout 20",
                );
                WaitStep::Failed(string_from_chars(&v))
            }
        },
        WaitEvent::Server { exit_status } => match exit_status {
            Some(s) => {
                let mut v: Vec<char> = Vec::new();
                push_str(&mut v, "[ERROR] JLinkGDBServer stopped before ");
                push_str(&mut v, name);
                push_str(&mut v, " port became ready. Exit status: ");
                push_str(&mut v, s.as_str());
                WaitStep::Failed(string_from_chars(&v))
            },
            None => WaitStep::TryConnect,
        },
        WaitEvent::Connect { accepted } => {
            if accepted {
                WaitStep::Ready
            } else {
                WaitStep::Pause
            }
        },
        WaitEvent::Paused => WaitStep::CheckClock,
    }
}

// ---------------------------------------------------------------------------
// Timeouts and the end of a capture
// ---------------------------------------------------------------------------

/// Seconds to wait for each port: `RTT_READY_TIMEOUT` as a `u32`, else 10.
pub fn ready_timeout_secs(c: &AppConfig) -> (r: u32)
    ensures
        numbers::parse_unsigned(c.ready_timeout@, u32::MAX as int) matches Some(v) ==> r == v,
        numbers::parse_unsigned(c.ready_timeout@, u32::MAX as int) is None ==> r == 10,
{
    match parse_u32(c.ready_timeout.as_str()) {
        Some(v) => v,
        None => 10,
    }
}

/// Seconds to wait for the match pattern: `RTT_MATCH_TIMEOUT` as a `u64`,
/// else 30.
pub fn match_timeout_secs(c: &AppConfig) -> (r: u64)
    ensures
        numbers::parse_unsigned(c.rtt_match_timeout@, u64::MAX as int) matches Some(v) ==> r == v,
        numbers::parse_unsigned(c.rtt_match_timeout@, u64::MAX as int) is None ==> r == 30,
{
    match parse_u64(c.rtt_match_timeout.as_str()) {
        Some(v) => v,
        None => 30,
    }
}

/// The message when J-Link Commander failed to reset and resume the target.
pub open spec fn resume_failed_message() -> Seq<char> {
    "[ERROR] Failed to reset/resume target through J-Link Commander.\n[INFO] Check the resume log above."@
}

/// The outcome of resetting and resuming the target, given whether J-Link
/// Commander exited successfully.
pub fn resume_outcome(success: bool) -> (r: Result<(), String>)
    ensures
        r is Ok <==> success,
        r matches Err(m) ==> m@ == resume_failed_message(),
{
    if success {
        Ok(())
    } else {
        Err("[ERROR] Failed to reset/resume target through J-Link Commander.\n[INFO] Check the resume log above.".to_owned())
    }
}

/// Whether a line of RTT output ends a capture that waits for `pattern`.
pub fn line_matches_pattern(line: &str, pattern: &str) -> (b: bool)
    ensures
        b == text::contains_text(line@, pattern@),
{
    contains_str(line, pattern)
}

/// The lines announcing an RTT capture from `address`.
pub open spec fn capture_banner_of(c: AppConfig, address: Seq<char>) -> Seq<Seq<char>> {
    match c.rtt_match_pattern {
        Some(p) => seq![
            "[INFO] Connecting to RTT telnet port "@ + address + "; waiting for match: "@ + p@,
        ],
        None => seq![
            "[INFO] Connecting to RTT telnet port "@ + address + "."@,
            "[INFO] Streaming until interrupted. To stop, send SIGINT (Ctrl+C or kill -INT <pid>)."@,
        ],
    }
}

/// The lines announcing an RTT capture from `address`.
pub fn capture_banner(c: &AppConfig, address: &str) -> (r: Vec<String>)
    ensures
        views(r@) == capture_banner_of(*c, address@),
{
    let mut r: Vec<String> = Vec::new();
    let mut v: Vec<char> = Vec::new();
    push_str(&mut v, "[INFO] Connecting to RTT telnet port ");
    push_str(&mut v, address);
    match &c.rtt_match_pattern {
        Some(p) => {
            push_str(&mut v, "; waiting for match: ");
            push_str(&mut v, p.as_str());
            r.push(string_from_chars(&v));
        },
        None => {
            push_str(&mut v, ".");
            r.push(string_from_chars(&v));
            r.push(
                "[INFO] Streaming until interrupted. To stop, send SIGINT (Ctrl+C or kill -INT <pid>).".to_owned(),
            );
        },
    }
    proof {
        assert(views(r@) =~= capture_banner_of(*c, address@));
    }
    r
}

/// How a capture that waits for a pattern ended.
pub enum CaptureEnd {
    /// A line contained the pattern.
    Matched,
    /// The connection closed first.
    Closed,
    /// The timeout passed first.
    TimedOut,
}

/// What a capture that waits for a pattern does with one read from the
/// RTT connection.
pub struct CaptureAction {
    /// Print the line read and append it to the output file, if any.
    pub echo: bool,
    /// How the capture ends after this read, if it does.
    pub end: Option<CaptureEnd>,
}

/// One read of a capture that waits for `pattern`: `Some(line)` for a line
/// read, `None` when the connection closed. A line is always printed and
/// saved, and ends the capture exactly when it contains the pattern; a
/// closed connection ends it with nothing to print.
pub open spec fn capture_step_of(read: Option<Seq<char>>, pattern: Seq<char>) -> (bool, Option<CaptureEnd>) {
    match read {
        Some(line) => (true, if text::contains_text(line, pattern) {
            Some(CaptureEnd::Matched)
        } else {
            None
        }),
        None => (false, Some(CaptureEnd::Closed)),
    }
}

/// What one read of a capture that waits for `pattern` calls for.
pub fn capture_step(read: Option<&str>, pattern: &str) -> (r: CaptureAction)
    ensures
        (r.echo, r.end) == capture_step_of(
            match read {
                Some(l) => Some(l@),
                None => None,
            },
            pattern@,
        ),
{
    match read {
        Some(line) => {
            if line_matches_pattern(line, pattern) {
                CaptureAction { echo: true, end: Some(CaptureEnd::Matched) }
            } else {
                CaptureAction { echo: true, end: None }
            }
        },
        None => CaptureAction { echo: false, end: Some(CaptureEnd::Closed) },
    }
}

/// The lines a capture that waits for `pattern` prints and saves, and how
/// it ends, when the connection delivers `lines` and then closes: each
/// read taken as `capture_step_of` says.
pub open spec fn capture_run(lines: Seq<Seq<char>>, pattern: Seq<char>) -> (Seq<Seq<char>>, CaptureEnd)
    decreases lines.len(),
{
    if lines.len() == 0 {
        (Seq::empty(), capture_step_of(None, pattern).1->Some_0)
    } else {
        let step = capture_step_of(Some(lines[0]), pattern);
        let shown = if step.0 {
            seq![lines[0]]
        } else {
            Seq::empty()
        };
        match step.1 {
            Some(end) => (shown, end),
            None => {
                let rest = capture_run(lines.drop_first(), pattern);
                (shown + rest.0, rest.1)
            },
        }
    }
}

/// Law: a capture that waits for a pattern prints and saves every line up
/// to and including the first line that contains the pattern, nothing
/// after it, and ends as matched; when no line contains the pattern it
/// prints and saves every line and ends when the connection closes.
pub proof fn law_capture_stops_at_first_match(lines: Seq<Seq<char>>, pattern: Seq<char>)
    ensures
        forall|i: int|
            0 <= i < lines.len() && text::contains_text(#[trigger] lines[i], pattern) && (forall|j: int|
                0 <= j < i ==> !text::contains_text(lines[j], pattern)) ==> capture_run(lines, pattern)
                == (lines.take(i + 1), CaptureEnd::Matched),
        (forall|i: int| 0 <= i < lines.len() ==> !text::contains_text(#[trigger] lines[i], pattern))
            ==> capture_run(lines, pattern) == (lines, CaptureEnd::Closed),
    decreases lines.len(),
{
    if lines.len() == 0 {
        assert(lines =~= Seq::<Seq<char>>::empty());
    } else {
        let rest = lines.drop_first();
        law_capture_stops_at_first_match(rest, pattern);
        assert forall|i: int|
            0 <= i < lines.len() && text::contains_text(#[trigger] lines[i], pattern) && (forall|j: int|
                0 <= j < i ==> !text::contains_text(lines[j], pattern)) implies capture_run(lines, pattern)
            == (lines.take(i + 1), CaptureEnd::Matched) by {
            if i == 0 {
                assert(lines.take(1) =~= seq![lines[0]]);
            } else {
                assert(!text::contains_text(lines[0], pattern));
                assert(rest[i - 1] == lines[i]);
                assert forall|j: int| 0 <= j < i - 1 implies !text::contains_text(rest[j], pattern) by {
                    assert(rest[j] == lines[j + 1]);
                }
                assert(seq![lines[0]] + rest.take(i) =~= lines.take(i + 1));
            }
        }
        if forall|i: int| 0 <= i < lines.len() ==> !text::contains_text(#[trigger] lines[i], pattern) {
            assert(!text::contains_text(lines[0], pattern));
            assert forall|i: int| 0 <= i < rest.len() implies !text::contains_text(#[trigger] rest[i], pattern) by {
                assert(rest[i] == lines[i + 1]);
            }
            assert(seq![lines[0]] + rest =~= lines);
        }
    }
}

pub open spec fn match_timeout_message(secs: nat, pattern: Seq<char>) -> Seq<char> {
    "[ERROR] Timed out waiting for RTT pattern after "@ + numbers::numeral(secs, 10) + "s: "@ + pattern
        + "\n"@ + "[INFO] Check the RTT output above for what was captured.\n"@
        + "[INFO] Or extend the timeout: --match-timeout 60\n"@
        + "[INFO] Or re-run without --match and without timeout to stream continuously, stop with SIGINT."@
}

/// The outcome of a capture that waited for `pattern`: the line to print
/// on a match, or the error.
pub open spec fn capture_outcome_of(end: CaptureEnd, pattern: Seq<char>, secs: nat) -> Result<
    Seq<char>,
    Seq<char>,
> {
    match end {
        CaptureEnd::Matched => Ok("[INFO] Matched RTT pattern: "@ + pattern),
        CaptureEnd::Closed => Err("RTT connection closed before pattern was matched."@),
        CaptureEnd::TimedOut => Err(match_timeout_message(secs, pattern)),
    }
}

/// The outcome of a capture that waited for `pattern` for `secs` seconds.
pub fn capture_outcome(end: CaptureEnd, pattern: &str, secs: u64) -> (r: Result<String, String>)
    ensures
        r matches Ok(m) ==> capture_outcome_of(end, pattern@, secs as nat) == Ok::<Seq<char>, Seq<char>>(
            m@,
        ),
        r matches Err(m) ==> capture_outcome_of(end, pattern@, secs as nat) == Err::<Seq<char>, Seq<char>>(
            m@,
        ),
{
    match end {
        CaptureEnd::Matched => Ok(text::concat2("[INFO] Matched RTT pattern: ", pattern)),
        CaptureEnd::Closed => Err("RTT connection closed before pattern was matched.".to_owned()),
        CaptureEnd::TimedOut => {
            let mut v: Vec<char> = Vec::new();
            push_str(&mut v, "[ERROR] Timed out waiting for RTT pattern after ");
            let n = decimal_string(secs);
            push_str(&mut v, n.as_str());
            push_str(&mut v, "s: ");
            push_str(&mut v, pattern);
            push_str(&mut v, "\n");
            push_str(&mut v, "[INFO] Check the RTT output above for what was captured.\n");
            push_str(&mut v, "[INFO] Or extend the timeout: --match-timeout 60\n");
            push_str(
                &mut v,
                "[INFO] Or re-run without --match and without timeout to stream continuously, stop with SIGINT.",
            );
            Err(string_from_chars(&v))
        },
    }
}

/// Law: J-Link Commander touches the target only when it is to be resumed:
/// with `RESUME_TARGET` "0" there is no script, whatever `RESET_TARGET`
/// holds; otherwise the script resets the target first exactly when
/// `RESET_TARGET` is "1", then lets it run and quits.
pub proof fn law_reset_script_follows_switches(c: AppConfig)
    ensures
        c.resume_target@ == "0"@ ==> reset_script_of(c) is None,
        reset_script_of(c) is Some ==> c.resume_target@ != "0"@,
        c.resume_target@ != "0"@ && c.reset_target@ == "1"@ ==> reset_script_of(c) == Some("r\ng\nq\n"@),
        c.resume_target@ != "0"@ && c.reset_target@ != "1"@ ==> reset_script_of(c) == Some("g\nq\n"@),
{
}

} // verus!
