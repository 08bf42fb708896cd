//! The scripts that run a command with administrator privileges, and how the
//! platform's elevation prompt reports that the user declined it.

use vstd::prelude::*;
use vstd::string::*;
use crate::shell_bridge::{replace_all, replace_char, Platform};
use crate::text::{
    chars_of, contains_chars, has_infix, owned, push_all, strings_of, trim_end, trim_end_string,
};

verus! {

/// The AppleScript string for `command`: backslashes doubled, then double
/// quotes escaped.
pub open spec fn applescript_quoted(command: Seq<char>) -> Seq<char> {
    replace_char(replace_char(command, '\\', seq!['\\', '\\']), '"', seq!['\\', '"'])
}

/// Where AppleScript is in reading a string literal, once past its opening
/// quote: inside the string, just after a backslash, past the closing quote, or
/// at something it would not accept.
pub enum LiteralState {
    Open,
    Escape,
    Closed,
    Broken,
}

/// A string literal as far as AppleScript has read it: the text it stands for
/// so far, and where the reading is.
pub struct LiteralReading {
    pub text: Seq<char>,
    pub state: LiteralState,
}

/// AppleScript reads one more character of a string literal. A backslash
/// escapes a backslash, a double quote, `n`, `t` or `r`; an unescaped double
/// quote closes the string; anything else stands for itself.
pub open spec fn read_literal_char(r: LiteralReading, c: char) -> LiteralReading {
    match r.state {
        LiteralState::Open => if c == '\\' {
            LiteralReading { text: r.text, state: LiteralState::Escape }
        } else if c == '"' {
            LiteralReading { text: r.text, state: LiteralState::Closed }
        } else {
            LiteralReading { text: r.text.push(c), state: LiteralState::Open }
        },
        LiteralState::Escape => if c == '\\' || c == '"' {
            LiteralReading { text: r.text.push(c), state: LiteralState::Open }
        } else if c == 'n' {
            LiteralReading { text: r.text.push('\n'), state: LiteralState::Open }
        } else if c == 't' {
            LiteralReading { text: r.text.push('\t'), state: LiteralState::Open }
        } else if c == 'r' {
            LiteralReading { text: r.text.push('\r'), state: LiteralState::Open }
        } else {
            LiteralReading { text: r.text, state: LiteralState::Broken }
        },
        LiteralState::Closed => LiteralReading { text: r.text, state: LiteralState::Broken },
        LiteralState::Broken => r,
    }
}

/// The reading after the characters of `t`, in order, starting from `r`.
pub open spec fn read_literal_from(r: LiteralReading, t: Seq<char>) -> LiteralReading
    decreases t.len(),
{
    if t.len() == 0 {
        r
    } else {
        read_literal_char(read_literal_from(r, t.drop_last()), t.last())
    }
}

/// The text an AppleScript string literal `t` stands for, when `t` is exactly
/// one well-formed literal, quotes included.
pub open spec fn applescript_string(t: Seq<char>) -> Option<Seq<char>> {
    if t.len() > 0 && t[0] == '"' {
        let r = read_literal_from(
            LiteralReading { text: Seq::empty(), state: LiteralState::Open },
            t.drop_first(),
        );
        if r.state is Closed {
            Some(r.text)
        } else {
            None
        }
    } else {
        None
    }
}

/// `c` escaped for an AppleScript string, one character at a time.
spec fn escaped_for_applescript(c: Seq<char>) -> Seq<char>
    decreases c.len(),
{
    if c.len() == 0 {
        Seq::empty()
    } else {
        escaped_for_applescript(c.drop_last()) + if c.last() == '\\' {
            seq!['\\', '\\']
        } else if c.last() == '"' {
            seq!['\\', '"']
        } else {
            seq![c.last()]
        }
    }
}

proof fn lemma_replace_concat(a: Seq<char>, b: Seq<char>, x: char, rep: Seq<char>)
    ensures
        replace_char(a + b, x, rep) == replace_char(a, x, rep) + replace_char(b, x, rep),
    decreases b.len(),
{
    if b.len() == 0 {
        assert(a + b =~= a);
        assert(replace_char(a, x, rep) + replace_char(b, x, rep) =~= replace_char(a, x, rep));
    } else {
        assert((a + b).drop_last() =~= a + b.drop_last());
        assert((a + b).last() == b.last());
        lemma_replace_concat(a, b.drop_last(), x, rep);
        let tail = if b.last() == x {
            rep
        } else {
            seq![b.last()]
        };
        assert(replace_char(a, x, rep) + replace_char(b.drop_last(), x, rep) + tail
            =~= replace_char(a, x, rep) + (replace_char(b.drop_last(), x, rep) + tail));
    }
}

proof fn lemma_single_replace(c: char, x: char, rep: Seq<char>)
    ensures
        replace_char(seq![c], x, rep) == if c == x {
            rep
        } else {
            seq![c]
        },
{
    let e0 = Seq::<char>::empty();
    assert(seq![c].drop_last() =~= e0);
    assert(seq![c].last() == c);
    assert(replace_char(e0, x, rep) == e0);
    assert(e0 + rep =~= rep);
    assert(e0 + seq![c] =~= seq![c]);
}

proof fn lemma_applescript_quoted_steps(c: Seq<char>)
    ensures
        applescript_quoted(c) == escaped_for_applescript(c),
    decreases c.len(),
{
    let bb = seq!['\\', '\\'];
    let bq = seq!['\\', '"'];
    if c.len() == 0 {
        assert(applescript_quoted(c) =~= Seq::<char>::empty());
    } else {
        lemma_applescript_quoted_steps(c.drop_last());
        let last = c.last();
        let once = replace_char(c, '\\', bb);
        let piece = if last == '\\' {
            bb
        } else {
            seq![last]
        };
        assert(once == replace_char(c.drop_last(), '\\', bb) + piece);
        lemma_replace_concat(replace_char(c.drop_last(), '\\', bb), piece, '"', bq);
        if last == '\\' {
            assert(bb =~= seq!['\\'] + seq!['\\']);
            lemma_replace_concat(seq!['\\'], seq!['\\'], '"', bq);
            lemma_single_replace('\\', '"', bq);
        } else {
            lemma_single_replace(last, '"', bq);
        }
    }
}

proof fn lemma_read_literal_push(r: LiteralReading, t: Seq<char>, c: char)
    ensures
        read_literal_from(r, t.push(c)) == read_literal_char(read_literal_from(r, t), c),
{
    assert(t.push(c).drop_last() =~= t);
}

proof fn lemma_read_literal_concat(r: LiteralReading, a: Seq<char>, b: Seq<char>)
    ensures
        read_literal_from(r, a + b) == read_literal_from(read_literal_from(r, a), b),
    decreases b.len(),
{
    if b.len() == 0 {
        assert(a + b =~= a);
    } else {
        assert((a + b).drop_last() =~= a + b.drop_last());
        assert((a + b).last() == b.last());
        lemma_read_literal_concat(r, a, b.drop_last());
    }
}

proof fn lemma_read_escaped(text: Seq<char>, c: Seq<char>)
    ensures
        read_literal_from(LiteralReading { text, state: LiteralState::Open }, escaped_for_applescript(c))
            == (LiteralReading { text: text + c, state: LiteralState::Open }),
    decreases c.len(),
{
    let start = LiteralReading { text, state: LiteralState::Open };
    if c.len() == 0 {
        assert(text + c =~= text);
    } else {
        let last = c.last();
        let piece = if last == '\\' {
            seq!['\\', '\\']
        } else if last == '"' {
            seq!['\\', '"']
        } else {
            seq![last]
        };
        lemma_read_literal_concat(start, escaped_for_applescript(c.drop_last()), piece);
        lemma_read_escaped(text, c.drop_last());
        let mid = LiteralReading { text: text + c.drop_last(), state: LiteralState::Open };
        let e0 = Seq::<char>::empty();
        if last == '\\' || last == '"' {
            assert(piece =~= e0.push('\\').push(last));
            lemma_read_literal_push(mid, e0, '\\');
            lemma_read_literal_push(mid, e0.push('\\'), last);
        } else {
            assert(piece =~= e0.push(last));
            lemma_read_literal_push(mid, e0, last);
        }
        assert((text + c.drop_last()).push(last) =~= text + c);
    }
}

/// The command the user approved is exactly the script that runs: the string
/// literal [`build_osascript_command`] hands to `do shell script` stands, for
/// AppleScript, for the command itself, character for character, whatever
/// quotes or backslashes it holds.
pub proof fn law_the_approved_command_is_the_one_that_runs(command: Seq<char>)
    ensures
        applescript_string(seq!['"'] + applescript_quoted(command) + seq!['"']) == Some(command),
{
    let literal = seq!['"'] + applescript_quoted(command) + seq!['"'];
    let open = LiteralReading { text: Seq::<char>::empty(), state: LiteralState::Open };
    lemma_applescript_quoted_steps(command);
    assert(literal.drop_first() =~= escaped_for_applescript(command).push('"'));
    lemma_read_literal_push(open, escaped_for_applescript(command), '"');
    lemma_read_escaped(Seq::empty(), command);
    assert(Seq::<char>::empty() + command =~= command);
}

/// Build the osascript command string for privileged execution: AppleScript's
/// `do shell script … with administrator privileges`, which triggers the system
/// password dialog.
pub fn build_osascript_command(command: &str) -> (r: String)
    ensures
        r@ == "do shell script \""@ + applescript_quoted(command@)
            + "\" with administrator privileges"@,
{
    let c = chars_of(command);
    let backslashes: Vec<char> = vec!['\\', '\\'];
    let quote: Vec<char> = vec!['\\', '"'];
    let escaped = replace_all(&replace_all(&c, '\\', &backslashes), '"', &quote);
    let mut r = owned("do shell script \"");
    push_all(&mut r, &escaped);
    r.append("\" with administrator privileges");
    r
}

/// The batch file that runs `command` elevated on Windows, sending its output
/// to the files `out` and `err`. The command is written verbatim — no escaping
/// to get wrong.
pub fn windows_batch_script(command: &str, out: &str, err: &str) -> (r: String)
    ensures
        r@ == "@echo off\r\n"@ + command@ + " 1>\""@ + out@ + "\" 2>\""@ + err@ + "\"\r\n"@,
{
    let mut r = owned("@echo off\r\n");
    r.append(command);
    r.append(" 1>\"");
    r.append(out);
    r.append("\" 2>\"");
    r.append(err);
    r.append("\"\r\n");
    r
}

/// The PowerShell wrapper that runs the batch file elevated through UAC, waits,
/// prints the captured output, and forwards the exit code. A declined prompt
/// raises ERROR_CANCELLED, which the wrapper turns into exit 1223.
pub fn windows_elevation_script(batch: &str, out: &str, err: &str) -> (r: String)
    ensures
        r@ == "try { $p = Start-Process -FilePath '"@ + batch@
            + "' -Verb RunAs -Wait -PassThru -WindowStyle Hidden; Get-Content -ErrorAction SilentlyContinue '"@
            + out@ + "' | Write-Output; Get-Content -ErrorAction SilentlyContinue '"@ + err@
            + "' | ForEach-Object { [Console]::Error.WriteLine($_) }; exit $p.ExitCode } catch { exit 1223 }"@,
{
    let mut r = owned("try { $p = Start-Process -FilePath '");
    r.append(batch);
    r.append(
        "' -Verb RunAs -Wait -PassThru -WindowStyle Hidden; Get-Content -ErrorAction SilentlyContinue '",
    );
    r.append(out);
    r.append("' | Write-Output; Get-Content -ErrorAction SilentlyContinue '");
    r.append(err);
    r.append(
        "' | ForEach-Object { [Console]::Error.WriteLine($_) }; exit $p.ExitCode } catch { exit 1223 }",
    );
    r
}

/// The program and arguments that run `command` elevated on `platform`:
/// AppleScript's `do shell script … with administrator privileges` on macOS,
/// `pkexec sh -c` on Linux (its polkit agent shows the dialog on every desktop),
/// and on Windows a PowerShell wrapper around the batch file `batch`, whose
/// output goes to `out` and `err`.
pub open spec fn elevation(
    platform: Platform,
    command: Seq<char>,
    batch: Seq<char>,
    out: Seq<char>,
    err: Seq<char>,
) -> (Seq<char>, Seq<Seq<char>>) {
    match platform {
        Platform::MacOs => (
            "osascript"@,
            seq!["-e"@, "do shell script \""@ + applescript_quoted(command) + "\" with administrator privileges"@],
        ),
        Platform::Linux => ("pkexec"@, seq!["sh"@, "-c"@, command]),
        Platform::Windows => (
            "powershell"@,
            seq![
                "-NoProfile"@,
                "-NonInteractive"@,
                "-Command"@,
                "try { $p = Start-Process -FilePath '"@ + batch
                    + "' -Verb RunAs -Wait -PassThru -WindowStyle Hidden; Get-Content -ErrorAction SilentlyContinue '"@
                    + out + "' | Write-Output; Get-Content -ErrorAction SilentlyContinue '"@ + err
                    + "' | ForEach-Object { [Console]::Error.WriteLine($_) }; exit $p.ExitCode } catch { exit 1223 }"@,
            ],
        ),
    }
}

/// How to run `command` with administrator privileges on `platform`: the
/// program, and its arguments. `batch`, `out` and `err` are the Windows batch
/// file (see [`windows_batch_script`]) and its output files; the other
/// platforms do not use them.
pub fn elevation_invocation(
    platform: Platform,
    command: &str,
    batch: &str,
    out: &str,
    err: &str,
) -> (r: (String, Vec<String>))
    ensures
        (r.0@, strings_of(r.1@)) == elevation(platform, command@, batch@, out@, err@),
{
    let mut args: Vec<String> = Vec::new();
    match platform {
        Platform::MacOs => {
            args.push(owned("-e"));
            args.push(build_osascript_command(command));
            assert(strings_of(args@) =~= elevation(platform, command@, batch@, out@, err@).1);
            (owned("osascript"), args)
        },
        Platform::Linux => {
            args.push(owned("sh"));
            args.push(owned("-c"));
            args.push(owned(command));
            assert(strings_of(args@) =~= elevation(platform, command@, batch@, out@, err@).1);
            (owned("pkexec"), args)
        },
        Platform::Windows => {
            args.push(owned("-NoProfile"));
            args.push(owned("-NonInteractive"));
            args.push(owned("-Command"));
            args.push(windows_elevation_script(batch, out, err));
            assert(strings_of(args@) =~= elevation(platform, command@, batch@, out@, err@).1);
            (owned("powershell"), args)
        },
    }
}

/// The exit means the user declined the system's elevation prompt: osascript
/// reports the dialog's cancel as error -128; pkexec exits 126 when the dialog
/// is dismissed and its agent says so on stderr; the Windows wrapper forwards
/// ERROR_CANCELLED as 1223.
pub open spec fn declined(platform: Platform, code: Option<i32>, stderr: Seq<char>) -> bool {
    match platform {
        Platform::MacOs => has_infix(stderr, "-128"@) || has_infix(stderr, "User canceled"@),
        Platform::Linux => code == Some(126i32) || has_infix(stderr, "Request dismissed"@),
        Platform::Windows => code == Some(1223i32),
    }
}

/// Whether the exit means the user declined the system's elevation prompt,
/// which the bridge reports as a cancellation rather than a failure.
pub fn user_cancelled(platform: Platform, code: Option<i32>, stderr: &str) -> (b: bool)
    ensures
        b == declined(platform, code, stderr@),
{
    let text = chars_of(stderr);
    match platform {
        Platform::MacOs => {
            contains_chars(&text, &chars_of("-128")) || contains_chars(
                &text,
                &chars_of("User canceled"),
            )
        },
        Platform::Linux => {
            code == Some(126i32) || contains_chars(&text, &chars_of("Request dismissed"))
        },
        Platform::Windows => code == Some(1223i32),
    }
}

/// What the sudo component answers once an elevated command has finished.
#[derive(Debug, Clone, PartialEq, Eq)]
pub struct SudoReport {
    /// `ok`, `error`, or `cancelled` when the user declined.
    pub status: String,
    pub stdout: String,
    pub stderr: String,
    pub code: Option<i32>,
}

/// The code a declined prompt is reported with, whatever the platform said.
pub const CANCELLED_CODE: i32 = -128;

/// The report for a run the user declined: no output, and [`CANCELLED_CODE`].
pub open spec fn is_cancelled_report(r: SudoReport) -> bool {
    &&& r.status@ == "cancelled"@
    &&& r.stdout@ == Seq::<char>::empty()
    &&& r.stderr@ == Seq::<char>::empty()
    &&& r.code == Some(CANCELLED_CODE)
}

/// The answer when the user declines, at the app's confirmation or at the
/// system's own prompt.
pub fn cancelled_report() -> (r: SudoReport)
    ensures
        is_cancelled_report(r),
{
    SudoReport {
        status: owned("cancelled"),
        stdout: String::new(),
        stderr: String::new(),
        code: Some(CANCELLED_CODE),
    }
}

/// The answer for an elevated command that finished with `code` (and
/// `success` when it exited cleanly): a declined prompt reads as a
/// cancellation; otherwise the status says whether the command succeeded and
/// the output comes back without trailing white space.
pub fn execution_report(
    platform: Platform,
    success: bool,
    code: Option<i32>,
    stdout: &str,
    stderr: &str,
) -> (r: SudoReport)
    ensures
        declined(platform, code, stderr@) ==> is_cancelled_report(r),
        !declined(platform, code, stderr@) ==> {
            &&& r.status@ == if success {
                "ok"@
            } else {
                "error"@
            }
            &&& r.stdout@ == trim_end(stdout@)
            &&& r.stderr@ == trim_end(stderr@)
            &&& r.code == code
        },
{
    if user_cancelled(platform, code, stderr) {
        return cancelled_report();
    }
    SudoReport {
        status: if success {
            owned("ok")
        } else {
            owned("error")
        },
        stdout: trim_end_string(stdout),
        stderr: trim_end_string(stderr),
        code,
    }
}

/// What the sudo component does for an event.
#[derive(Debug, Clone, Copy, PartialEq, Eq, Structural)]
pub enum SudoAction {
    /// Run with admin privileges and return the full output.
    Execute,
    /// Run with admin privileges and stream the output.
    Spawn,
}

/// The sudo action each event names.
pub open spec fn sudo_action_named(event: Seq<char>) -> Option<SudoAction> {
    if event == "execute"@ {
        Some(SudoAction::Execute)
    } else if event == "spawn"@ {
        Some(SudoAction::Spawn)
    } else {
        None
    }
}

/// The sudo action for `event`, or `None` for an unknown event.
pub fn sudo_action(event: &str) -> (a: Option<SudoAction>)
    ensures
        a == sudo_action_named(event@),
{
    if crate::text::is_literal(event, "execute") {
        Some(SudoAction::Execute)
    } else if crate::text::is_literal(event, "spawn") {
        Some(SudoAction::Spawn)
    } else {
        None
    }
}

} // verus!
