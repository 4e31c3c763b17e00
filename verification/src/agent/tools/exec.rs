//! Shell execution tool: the safety guard that vets a command, the timeout
//! it runs under, and the text its outcome is reported as. Running the
//! command is left to the caller.

use vstd::prelude::*;

use crate::agent::tools::ToolError;
use crate::pattern::{regex_is_match, spec_regex_is_match, spec_regex_valid};
use crate::text::{
    all_whitespace, chars_of, contains_seq, contains_str, is_blank, join_chars, push_decimal,
    push_signed_decimal, push_str, slice_chars, spec_decimal, spec_join, spec_signed_decimal,
    spec_to_lowercase, spec_utf8_lossy, string_of, to_lowercase, utf8_lossy,
};

verus! {

/// Tool for executing shell commands with timeout and safety guards.
pub struct ExecTool {
    /// Default timeout in seconds
    pub timeout_secs: u64,
    /// Max characters to include in output (truncates large outputs)
    pub max_output_chars: usize,
    /// Regex patterns for dangerous commands that are blocked
    pub deny_patterns: Vec<String>,
    /// Whether to block path traversal patterns (`..`)
    pub restrict_to_workspace: bool,
    pub workspace: Option<String>,
}

/// The patterns of destructive or harmful commands that are refused.
pub open spec fn spec_deny_patterns() -> Seq<Seq<char>> {
    seq![
        r"rm\s+-[rf]{1,2}\b"@,
        r"del\s+/[fq]\b"@,
        r"rmdir\s+/s\b"@,
        r"\bformat\b"@,
        r"\b(mkfs|diskpart)\b"@,
        r"\bdd\s+if="@,
        r">\s*/dev/sd"@,
        r"\b(shutdown|reboot|poweroff)\b"@,
        r":\(\)\s*\{.*\};\s*:"@,
        r"\bsudo\s+su\b"@,
        r"\bchmod\s+777\b"@,
        r"\bcurl\s+.*\|\s*sh\b"@,
        r"\bwget\s+.*\|\s*sh\b"@,
    ]
}

/// Pattern `i` compiles and matches `lower`.
pub open spec fn pattern_hits(patterns: Seq<Seq<char>>, i: int, lower: Seq<char>) -> bool {
    spec_regex_valid(patterns[i]) && spec_regex_is_match(patterns[i], lower)
}

/// The verdict of the safety guard on `command`: the first deny pattern that
/// matches the lowercased command, else `..` when the tool is restricted to
/// its workspace, else nothing.
pub open spec fn spec_guard(patterns: Seq<Seq<char>>, restrict: bool, command: Seq<char>) -> Option<
    Seq<char>,
> {
    let lower = spec_to_lowercase(command);
    if exists|i: int| 0 <= i < patterns.len() && #[trigger] pattern_hits(patterns, i, lower) {
        let i = choose|i: int|
            0 <= i < patterns.len() && #[trigger] pattern_hits(patterns, i, lower) && forall|j: int|
                0 <= j < i ==> !#[trigger] pattern_hits(patterns, j, lower);
        Some(
            "Error: Command blocked by safety guard (dangerous pattern: "@ + patterns[i] + ")"@,
        )
    } else if restrict && contains_seq(command, ".."@) {
        Some("Error: Command blocked (path traversal detected)"@)
    } else {
        None
    }
}

/// The text a finished command is reported as, before truncation: its
/// standard output if any, its standard error (if not blank) and its exit code.
pub open spec fn exec_parts(stdout: Seq<u8>, stderr: Seq<u8>, code: Option<i32>) -> Seq<Seq<char>> {
    (if stdout.len() > 0 {
        seq![spec_utf8_lossy(stdout)]
    } else {
        Seq::empty()
    }) + (if stderr.len() > 0 && !all_whitespace(spec_utf8_lossy(stderr)) {
        seq!["STDERR:\n"@ + spec_utf8_lossy(stderr)]
    } else {
        Seq::empty()
    }) + seq![
        "Exit code: "@ + spec_signed_decimal(
            match code {
                Some(c) => c as int,
                None => -1,
            },
        ),
    ]
}

/// `text`, or when it has more than `max` characters, its first and last
/// `max / 2` characters around a note of how many were cut.
pub open spec fn truncate_middle(text: Seq<char>, max: nat) -> Seq<char> {
    if text.len() > max {
        let half = max / 2;
        text.subrange(0, half as int) + "\n\n... ("@ + spec_decimal((text.len() - max) as nat)
            + " chars truncated) ...\n\n"@ + text.subrange(text.len() - half, text.len() as int)
    } else {
        text
    }
}

/// The timeout a run gets: the requested one, `default` when none is
/// requested, at most 600 seconds.
pub open spec fn spec_timeout(requested: Option<u64>, default: u64) -> u64 {
    let t = match requested {
        Some(t) => t,
        None => default,
    };
    if t < 600 {
        t
    } else {
        600
    }
}

/// No run gets more than ten minutes: a requested (or default) timeout up
/// to 600 seconds is kept, a longer one is cut to 600.
pub proof fn law_timeout_at_most_ten_minutes(requested: Option<u64>, default: u64)
    ensures
        spec_timeout(requested, default) <= 600,
        requested matches Some(t) ==> spec_timeout(requested, default) == if t <= 600 {
            t
        } else {
            600
        },
        requested is None ==> spec_timeout(requested, default) == if default <= 600 {
            default
        } else {
            600
        },
{
}

/// How a run of the command ended.
pub enum ExecOutcome {
    /// The command ran; its output and exit code (`None` when killed by a signal).
    Completed { stdout: Vec<u8>, stderr: Vec<u8>, code: Option<i32> },
    /// The command could not be started; the error's message.
    SpawnFailed(String),
    /// The command did not finish within the timeout.
    TimedOut,
}

impl ExecTool {
    /// Create a new ExecTool.
    pub fn new(timeout_secs: u64, workspace: Option<String>, restrict_to_workspace: bool) -> (res:
        Self)
        ensures
            res.timeout_secs == timeout_secs,
            res.max_output_chars == 10000,
            res.deny_patterns@.map_values(|p: String| p@) == spec_deny_patterns(),
            res.restrict_to_workspace == restrict_to_workspace,
            res.workspace == workspace,
    {
        let mut deny_patterns: Vec<String> = Vec::new();
        deny_patterns.push(String::from_str(r"rm\s+-[rf]{1,2}\b"));
        deny_patterns.push(String::from_str(r"del\s+/[fq]\b"));
        deny_patterns.push(String::from_str(r"rmdir\s+/s\b"));
        deny_patterns.push(String::from_str(r"\bformat\b"));
        deny_patterns.push(String::from_str(r"\b(mkfs|diskpart)\b"));
        deny_patterns.push(String::from_str(r"\bdd\s+if="));
        deny_patterns.push(String::from_str(r">\s*/dev/sd"));
        deny_patterns.push(String::from_str(r"\b(shutdown|reboot|poweroff)\b"));
        deny_patterns.push(String::from_str(r":\(\)\s*\{.*\};\s*:"));
        deny_patterns.push(String::from_str(r"\bsudo\s+su\b"));
        deny_patterns.push(String::from_str(r"\bchmod\s+777\b"));
        deny_patterns.push(String::from_str(r"\bcurl\s+.*\|\s*sh\b"));
        deny_patterns.push(String::from_str(r"\bwget\s+.*\|\s*sh\b"));
        assert(deny_patterns@.map_values(|p: String| p@) =~= spec_deny_patterns());
        ExecTool {
            timeout_secs,
            max_output_chars: 10000,
            deny_patterns,
            restrict_to_workspace,
            workspace,
        }
    }
}

impl ExecTool {
    pub open spec fn patterns(&self) -> Seq<Seq<char>> {
        self.deny_patterns@.map_values(|p: String| p@)
    }

    /// Check if a command should be blocked by safety guards.
    /// Returns `Some(error_message)` if blocked, `None` if allowed.
    pub fn guard_command(&self, command: &str) -> (res: Option<String>)
        ensures
            res.is_some() == spec_guard(self.patterns(), self.restrict_to_workspace, command@).is_some(),
            res matches Some(m) ==> spec_guard(self.patterns(), self.restrict_to_workspace, command@)
                == Some(m@),
    {
        proof {
            reveal_strlit("Error: Command blocked by safety guard (dangerous pattern: ");
            reveal_strlit(")");
            reveal_strlit("..");
            reveal_strlit("Error: Command blocked (path traversal detected)");
        }
        let ghost pats = self.patterns();
        let lower = to_lowercase(command);
        let mut i: usize = 0;
        while i < self.deny_patterns.len()
            invariant
                pats == self.patterns(),
                i <= self.deny_patterns@.len(),
                lower@ == spec_to_lowercase(command@),
                forall|j: int| 0 <= j < i ==> !#[trigger] pattern_hits(pats, j, lower@),
            decreases self.deny_patterns@.len() - i,
        {
            let pattern = &self.deny_patterns[i];
            match regex_is_match(pattern.as_str(), lower.as_str()) {
                Some(true) => {
                    assert(pattern_hits(pats, i as int, lower@));
                    let ghost chosen = choose|k: int|
                        0 <= k < pats.len() && #[trigger] pattern_hits(pats, k, lower@) && forall|
                            j: int,
                        | 0 <= j < k ==> !#[trigger] pattern_hits(pats, j, lower@);
                    assert(chosen == i) by {
                        if chosen < i {
                        } else if chosen > i {
                            assert(!pattern_hits(pats, i as int, lower@));
                        }
                    }
                    let mut out: Vec<char> = Vec::new();
                    push_str(&mut out, "Error: Command blocked by safety guard (dangerous pattern: ");
                    push_str(&mut out, pattern.as_str());
                    push_str(&mut out, ")");
                    return Some(string_of(&out));
                },
                _ => {},
            }
            i = i + 1;
        }
        if self.restrict_to_workspace {
            if contains_str(command, "..") {
                return Some(String::from_str("Error: Command blocked (path traversal detected)"));
            }
        }
        None
    }

    /// The timeout a run gets: the requested one, the tool's default when
    /// none is requested, at most 600 seconds.
    pub fn effective_timeout(&self, requested: Option<u64>) -> (res: u64)
        ensures
            res == spec_timeout(requested, self.timeout_secs),
    {
        let t = match requested {
            Some(t) => t,
            None => self.timeout_secs,
        };
        if t < 600 { t } else { 600 }
    }

    /// Vets a request: the command (required) must pass the safety guard.
    /// Returns the command to run and its timeout.
    pub fn plan(&self, command: Option<&str>, timeout: Option<u64>) -> (res: Result<
        (String, u64),
        ToolError,
    >)
        ensures
            command is None ==> (res matches Err(ToolError::InvalidArgs(m)) && m@
                == "command is required"@),
            command matches Some(c) ==> match spec_guard(
                self.patterns(),
                self.restrict_to_workspace,
                c@,
            ) {
                Some(g) => res matches Err(ToolError::Execution(m)) && m@ == g,
                None => res matches Ok((cmd, t)) && cmd@ == c@ && t == spec_timeout(
                    timeout,
                    self.timeout_secs,
                ),
            },
    {
        let command = match command {
            Some(c) => c,
            None => return Err(ToolError::InvalidArgs(String::from_str("command is required"))),
        };
        if let Some(err) = self.guard_command(command) {
            return Err(ToolError::Execution(err));
        }
        Ok((command.to_string(), self.effective_timeout(timeout)))
    }

    /// The answer to a finished run that took at most `timeout_secs` seconds.
    pub fn finish(&self, outcome: ExecOutcome, timeout_secs: u64) -> (res: Result<String, ToolError>)
        ensures
            match outcome {
                ExecOutcome::Completed { stdout, stderr, code } => res matches Ok(t) && t@
                    == truncate_middle(
                    spec_join(exec_parts(stdout@, stderr@, code), "\n"@),
                    self.max_output_chars as nat,
                ),
                ExecOutcome::SpawnFailed(e) => res matches Err(ToolError::Execution(m)) && m@
                    == "Failed to execute command: "@ + e@,
                ExecOutcome::TimedOut => res matches Err(ToolError::Execution(m)) && m@
                    == "Command timed out after "@ + spec_decimal(timeout_secs as nat)
                    + " seconds"@,
            },
    {
        proof {
            reveal_strlit("Failed to execute command: ");
            reveal_strlit("Command timed out after ");
            reveal_strlit(" seconds");
        }
        match outcome {
            ExecOutcome::Completed { stdout, stderr, code } => {
                let text = format_exec_output(&stdout, &stderr, code);
                Ok(truncate_output(&text, self.max_output_chars))
            },
            ExecOutcome::SpawnFailed(e) => {
                let mut out: Vec<char> = Vec::new();
                push_str(&mut out, "Failed to execute command: ");
                push_str(&mut out, e.as_str());
                Err(ToolError::Execution(string_of(&out)))
            },
            ExecOutcome::TimedOut => {
                let mut out: Vec<char> = Vec::new();
                push_str(&mut out, "Command timed out after ");
                push_decimal(&mut out, timeout_secs);
                push_str(&mut out, " seconds");
                Err(ToolError::Execution(string_of(&out)))
            },
        }
    }
}

/// A tool restricted to its workspace refuses every command that contains
/// `..`, whatever the deny patterns say.
pub proof fn law_traversal_is_refused(patterns: Seq<Seq<char>>, command: Seq<char>)
    requires
        contains_seq(command, ".."@),
    ensures
        spec_guard(patterns, true, command) is Some,
{
}

/// Output within the limit is kept whole; longer output keeps its first and
/// its last `max / 2` characters, and what stands between them tells how
/// many characters were cut.
pub proof fn law_output_cut_in_the_middle(text: Seq<char>, max: nat)
    ensures
        text.len() <= max ==> truncate_middle(text, max) == text,
        text.len() > max ==> {
            let r = truncate_middle(text, max);
            let h = (max / 2) as int;
            &&& r.len() >= 2 * h
            &&& r.subrange(0, h) == text.subrange(0, h)
            &&& r.subrange(r.len() - h, r.len() as int) == text.subrange(
                text.len() - h,
                text.len() as int,
            )
            &&& contains_seq(
                r.subrange(h, r.len() - h),
                spec_decimal((text.len() - max) as nat) + " chars truncated"@,
            )
        },
{
    if text.len() > max {
        let r = truncate_middle(text, max);
        let h = (max / 2) as int;
        let note = "\n\n... ("@ + spec_decimal((text.len() - max) as nat) + " chars truncated) ...\n\n"@;
        let head = text.subrange(0, h);
        let tail = text.subrange(text.len() - h, text.len() as int);
        assert(r == head + note + tail);
        assert(r.subrange(0, h) =~= head);
        assert(r.subrange(r.len() - h, r.len() as int) =~= tail);
        assert(r.subrange(h, r.len() - h) =~= note);
        reveal_strlit("\n\n... (");
        reveal_strlit(" chars truncated) ...\n\n");
        reveal_strlit(" chars truncated");
        let d = spec_decimal((text.len() - max) as nat);
        let pat = d + " chars truncated"@;
        let a = "\n\n... ("@;
        let b = " chars truncated) ...\n\n"@;
        assert(a.len() == 7);
        assert(b.subrange(0, 16) =~= " chars truncated"@);
        assert(note == a + d + b);
        assert(note.subrange(7, 7 + pat.len() as int) =~= pat);
        assert(crate::text::occurs_at(r.subrange(h, r.len() - h), pat, 7));
    }
}

/// The guard of a tool built by `new` refuses every command in which one
/// of the dangerous-command patterns finds a match in the lowercased text:
/// recursive or forced deletion (`rm -rf`, `del /f`, `rmdir /s`), disk
/// formatting (`format`, `mkfs`, `diskpart`), raw disk writes (`dd if=`,
/// `> /dev/sd`), power control (`shutdown`, `reboot`, `poweroff`), the fork
/// bomb, `sudo su`, `chmod 777` and piping a download into `sh`. What a
/// pattern matches is `regex`'s to decide, so the law speaks of the match.
pub proof fn law_default_guard_refuses_dangerous(restrict: bool, command: Seq<char>, pattern: Seq<char>)
    requires
        pattern == r"rm\s+-[rf]{1,2}\b"@ || pattern == r"del\s+/[fq]\b"@ || pattern == r"rmdir\s+/s\b"@ || pattern == r"\bformat\b"@ || pattern == r"\b(mkfs|diskpart)\b"@ || pattern == r"\bdd\s+if="@ || pattern == r">\s*/dev/sd"@ || pattern == r"\b(shutdown|reboot|poweroff)\b"@ || pattern == r":\(\)\s*\{.*\};\s*:"@ || pattern == r"\bsudo\s+su\b"@ || pattern == r"\bchmod\s+777\b"@ || pattern == r"\bcurl\s+.*\|\s*sh\b"@ || pattern == r"\bwget\s+.*\|\s*sh\b"@,
        spec_regex_valid(pattern),
        spec_regex_is_match(pattern, spec_to_lowercase(command)),
    ensures
        spec_guard(spec_deny_patterns(), restrict, command) is Some,
{
    let lower = spec_to_lowercase(command);
    if pattern == r"rm\s+-[rf]{1,2}\b"@ {
        assert(pattern_hits(spec_deny_patterns(), 0, lower));
    }
    if pattern == r"del\s+/[fq]\b"@ {
        assert(pattern_hits(spec_deny_patterns(), 1, lower));
    }
    if pattern == r"rmdir\s+/s\b"@ {
        assert(pattern_hits(spec_deny_patterns(), 2, lower));
    }
    if pattern == r"\bformat\b"@ {
        assert(pattern_hits(spec_deny_patterns(), 3, lower));
    }
    if pattern == r"\b(mkfs|diskpart)\b"@ {
        assert(pattern_hits(spec_deny_patterns(), 4, lower));
    }
    if pattern == r"\bdd\s+if="@ {
        assert(pattern_hits(spec_deny_patterns(), 5, lower));
    }
    if pattern == r">\s*/dev/sd"@ {
        assert(pattern_hits(spec_deny_patterns(), 6, lower));
    }
    if pattern == r"\b(shutdown|reboot|poweroff)\b"@ {
        assert(pattern_hits(spec_deny_patterns(), 7, lower));
    }
    if pattern == r":\(\)\s*\{.*\};\s*:"@ {
        assert(pattern_hits(spec_deny_patterns(), 8, lower));
    }
    if pattern == r"\bsudo\s+su\b"@ {
        assert(pattern_hits(spec_deny_patterns(), 9, lower));
    }
    if pattern == r"\bchmod\s+777\b"@ {
        assert(pattern_hits(spec_deny_patterns(), 10, lower));
    }
    if pattern == r"\bcurl\s+.*\|\s*sh\b"@ {
        assert(pattern_hits(spec_deny_patterns(), 11, lower));
    }
    if pattern == r"\bwget\s+.*\|\s*sh\b"@ {
        assert(pattern_hits(spec_deny_patterns(), 12, lower));
    }
}

/// The parts of a finished run's report, joined by line breaks.
fn format_exec_output(stdout: &Vec<u8>, stderr: &Vec<u8>, code: Option<i32>) -> (res: Vec<char>)
    ensures
        res@ == spec_join(exec_parts(stdout@, stderr@, code), "\n"@),
{
    proof {
        reveal_strlit("STDERR:\n");
        reveal_strlit("Exit code: ");
    }
    let mut parts: Vec<Vec<char>> = Vec::new();
    if stdout.len() > 0 {
        let s = utf8_lossy(stdout.as_slice());
        parts.push(chars_of(s.as_str()));
    }
    if stderr.len() > 0 {
        let s = utf8_lossy(stderr.as_slice());
        if !is_blank(s.as_str()) {
            let mut p: Vec<char> = Vec::new();
            push_str(&mut p, "STDERR:\n");
            push_str(&mut p, s.as_str());
            parts.push(p);
        }
    }
    let mut last: Vec<char> = Vec::new();
    push_str(&mut last, "Exit code: ");
    let c: i32 = match code {
        Some(c) => c,
        None => -1,
    };
    push_signed_decimal(&mut last, c);
    parts.push(last);
    assert(parts@.map_values(|p: Vec<char>| p@) =~= exec_parts(stdout@, stderr@, code));
    join_chars(&parts, "\n")
}

/// `text`, cut in the middle when longer than `max` characters.
fn truncate_output(text: &Vec<char>, max: usize) -> (res: String)
    ensures
        res@ == truncate_middle(text@, max as nat),
{
    proof {
        reveal_strlit("\n\n... (");
        reveal_strlit(" chars truncated) ...\n\n");
    }
    let n = text.len();
    if n > max {
        let half = max / 2;
        let mut out = slice_chars(text, 0, half);
        push_str(&mut out, "\n\n... (");
        push_decimal(&mut out, (n - max) as u64);
        push_str(&mut out, " chars truncated) ...\n\n");
        let mut tail = slice_chars(text, n - half, n);
        out.append(&mut tail);
        string_of(&out)
    } else {
        string_of(text)
    }
}

} // verus!
