//! Reading what the system's process tools report, and the order in which a process is
//! asked, then forced, to end.
use vstd::prelude::*;

use crate::paths::{lines, split_lines, words, words_of};
use crate::text::{
    chars_of, contains, decimal, decimal_string, owned, parse_unsigned, parse_unsigned_chars,
    push_decimal, push_str, str_contains, string_from_chars, trim, trim_chars, trim_str,
};

verus! {

broadcast use vstd::string::group_string_axioms;

/// The `tasklist` arguments that look up process `pid`.
pub fn tasklist_args(pid: u32) -> (r: Vec<String>)
    ensures
        crate::config::strings_view(r@) == seq![
            "/FI"@,
            "PID eq "@ + decimal(pid as nat),
            "/FO"@,
            "CSV"@,
            "/NH"@,
        ],
{
    let mut f = chars_of("PID eq ");
    push_decimal(&mut f, pid as u64);
    let mut r: Vec<String> = Vec::new();
    r.push(owned("/FI"));
    r.push(string_from_chars(&f));
    r.push(owned("/FO"));
    r.push(owned("CSV"));
    r.push(owned("/NH"));
    assert(crate::config::strings_view(r@) =~= seq![
        "/FI"@,
        "PID eq "@ + decimal(pid as nat),
        "/FO"@,
        "CSV"@,
        "/NH"@,
    ]);
    r
}

/// Whether `tasklist` reported the process alive: it succeeded, printed something, and
/// printed neither that no task runs nor an `INFO:` line.
pub fn tasklist_reports_alive(success: bool, stdout: &str) -> (r: bool)
    ensures
        r == (success && !contains(stdout@, "No tasks are running"@) && !contains(
            stdout@,
            "INFO:"@,
        ) && trim(stdout@).len() > 0),
{
    if !success {
        return false;
    }
    let t = trim_str(stdout);
    !str_contains(stdout, "No tasks are running") && !str_contains(stdout, "INFO:")
        && !t.as_str().is_empty()
}

/// Whether `ps -p` reported the process alive: it succeeded and printed more than its
/// header line.
pub fn ps_reports_alive(success: bool, stdout: &str) -> (r: bool)
    ensures
        r == (success && lines(stdout@).len() > 1),
{
    if !success {
        return false;
    }
    let ls = split_lines(stdout);
    ls.len() > 1
}

/// A process lookup by name and command-line fragment, both trimmed; none when either is
/// blank.
pub fn process_query(process_name: &str, command_line_fragment: &str) -> (r: Option<(String, String)>)
    ensures
        match r {
            Some(q) => trim(process_name@).len() > 0 && trim(command_line_fragment@).len() > 0
                && q.0@ == trim(process_name@) && q.1@ == trim(command_line_fragment@),
            None => trim(process_name@).len() == 0 || trim(command_line_fragment@).len() == 0,
        },
{
    let n = trim_str(process_name);
    let f = trim_str(command_line_fragment);
    if n.as_str().is_empty() || f.as_str().is_empty() {
        None
    } else {
        Some((n, f))
    }
}

/// `s` with every `'` doubled, as PowerShell quotes it.
pub open spec fn double_quotes(s: Seq<char>) -> Seq<char>
    decreases s.len(),
{
    if s.len() == 0 {
        Seq::empty()
    } else if s.last() == '\'' {
        double_quotes(s.drop_last()) + seq!['\'', '\'']
    } else {
        double_quotes(s.drop_last()).push(s.last())
    }
}

fn push_doubled(out: &mut Vec<char>, s: &str)
    ensures
        final(out)@ == old(out)@ + double_quotes(s@),
{
    let v = chars_of(s);
    let ghost start = out@;
    let mut i: usize = 0;
    assert(v@.take(0) =~= Seq::<char>::empty());
    while i < v.len()
        invariant
            0 <= i <= v@.len(),
            out@ == start + double_quotes(v@.take(i as int)),
        decreases v@.len() - i,
    {
        assert(v@.take(i + 1).drop_last() =~= v@.take(i as int));
        if v[i] == '\'' {
            out.push('\'');
            out.push('\'');
        } else {
            out.push(v[i]);
        }
        i = i + 1;
    }
    assert(v@.take(v@.len() as int) =~= v@);
}

/// The PowerShell script that prints the pid of the first process named `process_name`
/// whose command line contains `fragment`.
pub fn powershell_pid_script(process_name: &str, fragment: &str) -> (r: String)
    ensures
        r@ == "$p = Get-CimInstance Win32_Process -Filter \"Name = '"@ + double_quotes(
            process_name@,
        ) + "'\" | Where-Object { $_.CommandLine -like '*"@ + double_quotes(fragment@)
            + "*' } | Select-Object -First 1 -ExpandProperty ProcessId; if ($p) { Write-Output $p }"@,
{
    let mut v = chars_of("$p = Get-CimInstance Win32_Process -Filter \"Name = '");
    push_doubled(&mut v, process_name);
    push_str(&mut v, "'\" | Where-Object { $_.CommandLine -like '*");
    push_doubled(&mut v, fragment);
    push_str(
        &mut v,
        "*' } | Select-Object -First 1 -ExpandProperty ProcessId; if ($p) { Write-Output $p }",
    );
    string_from_chars(&v)
}

/// The pid PowerShell printed: the first line of its trimmed output, trimmed, as a `u32`.
pub open spec fn spec_first_line_pid(stdout: Seq<char>) -> Option<nat> {
    let ls = lines(trim(stdout));
    if ls.len() == 0 {
        None
    } else {
        parse_unsigned(trim(ls[0]), u32::MAX as nat)
    }
}

pub fn first_line_pid(stdout: &str) -> (r: Option<u32>)
    ensures
        match r {
            Some(p) => spec_first_line_pid(stdout@) == Some(p as nat),
            None => spec_first_line_pid(stdout@) is None,
        },
{
    let t = trim_str(stdout);
    let ls = split_lines(t.as_str());
    if ls.len() == 0 {
        return None;
    }
    let first = trim_chars(&ls[0]);
    match parse_unsigned_chars(&first, u32::MAX as u64) {
        Some(n) => Some(n as u32),
        None => None,
    }
}

/// The pid `ps -eo pid=,comm=,args=` shows on the first of the lines `ls[i..]` that
/// mentions both `name` and `fragment` and starts with a pid.
pub open spec fn ps_pid_from(ls: Seq<Seq<char>>, i: int, name: Seq<char>, fragment: Seq<char>) -> Option<
    nat,
>
    decreases ls.len() - i,
{
    if !(0 <= i < ls.len()) {
        None
    } else if contains(ls[i], name) && contains(ls[i], fragment) && words(ls[i]).len() > 0
        && parse_unsigned(words(ls[i])[0], u32::MAX as nat) is Some {
        parse_unsigned(words(ls[i])[0], u32::MAX as nat)
    } else {
        ps_pid_from(ls, i + 1, name, fragment)
    }
}

pub fn ps_find_pid(stdout: &str, process_name: &str, fragment: &str) -> (r: Option<u32>)
    ensures
        match r {
            Some(p) => ps_pid_from(lines(stdout@), 0, process_name@, fragment@) == Some(p as nat),
            None => ps_pid_from(lines(stdout@), 0, process_name@, fragment@) is None,
        },
{
    let ls = split_lines(stdout);
    let n = chars_of(process_name);
    let f = chars_of(fragment);
    let ghost lv = lines(stdout@);
    let mut i: usize = 0;
    while i < ls.len()
        invariant
            0 <= i <= ls@.len(),
            lv == lines(stdout@),
            ls@.len() == lv.len(),
            forall|j: int| 0 <= j < ls@.len() ==> (#[trigger] ls@[j])@ == lv[j],
            n@ == process_name@,
            f@ == fragment@,
            ps_pid_from(lv, 0, process_name@, fragment@) == ps_pid_from(
                lv,
                i as int,
                process_name@,
                fragment@,
            ),
        decreases ls@.len() - i,
    {
        assert(ls@[i as int]@ == lv[i as int]);
        if crate::text::contains_chars(&ls[i], &n) && crate::text::contains_chars(&ls[i], &f) {
            let ws = words_of(&ls[i]);
            let ghost wv = ws@.map_values(|w: Vec<char>| w@);
            assert(wv =~= words(lv[i as int]));
            if ws.len() > 0 {
                assert(ws@[0]@ == words(lv[i as int])[0]);
                match parse_unsigned_chars(&ws[0], u32::MAX as u64) {
                    Some(p) => {
                        return Some(p as u32);
                    },
                    None => {},
                }
            }
        }
        i = i + 1;
    }
    None
}

/// The `kill` signal: `-KILL` when forced, else `-TERM`.
pub fn kill_signal(force: bool) -> (r: &'static str)
    ensures
        r@ == (if force {
            "-KILL"@
        } else {
            "-TERM"@
        }),
{
    if force {
        "-KILL"
    } else {
        "-TERM"
    }
}

/// The `taskkill` arguments for the process tree of `pid`.
pub fn taskkill_args(pid: u32, force: bool) -> (r: Vec<String>)
    ensures
        crate::config::strings_view(r@) == seq!["/PID"@, decimal(pid as nat), "/T"@] + (if force {
            seq!["/F"@]
        } else {
            Seq::empty()
        }),
{
    let mut r: Vec<String> = Vec::new();
    r.push(owned("/PID"));
    r.push(decimal_string(pid as u64));
    r.push(owned("/T"));
    if force {
        r.push(owned("/F"));
    }
    assert(crate::config::strings_view(r@) =~= seq!["/PID"@, decimal(pid as nat), "/T"@] + (if force {
        seq!["/F"@]
    } else {
        Seq::empty()
    }));
    r
}

/// What a failed `taskkill` reports: its trimmed error and output, those not empty joined by
/// a newline, else its exit status `status`.
pub fn taskkill_failure(stderr: &str, stdout: &str, status: &str) -> (r: String)
    ensures
        r@ == (if crate::workspace::join_nonempty(trim(stderr@), trim(stdout@)).len() == 0 {
            "taskkill returned exit code "@ + status@
        } else {
            crate::workspace::join_nonempty(trim(stderr@), trim(stdout@))
        }),
{
    let a = trim_str(stderr);
    let b = trim_str(stdout);
    if a.as_str().is_empty() && b.as_str().is_empty() {
        crate::text::concat2("taskkill returned exit code ", status)
    } else if a.as_str().is_empty() {
        b
    } else if b.as_str().is_empty() {
        a
    } else {
        crate::text::concat3(a.as_str(), "\n", b.as_str())
    }
}

/// What ending a process does next, given what its `taskkill` calls gave so far.
pub enum TerminateStep {
    /// Run `taskkill`, forced or not.
    Taskkill(bool),
    /// The process was told to end; whether force was used.
    Finished(bool),
    /// Ending the process failed.
    Failed(String),
}

/// The next step of ending process `pid`: with `force`, one forced `taskkill`; else a
/// graceful one, and a forced one when that fails. `results` are the outcomes of the
/// `taskkill` calls made so far.
pub fn terminate_next(pid: u32, force: bool, results: &Vec<Result<(), String>>) -> (r: TerminateStep)
    ensures
        if force {
            if results@.len() == 0 {
                r == TerminateStep::Taskkill(true)
            } else {
                match results@[0] {
                    Ok(_) => r == TerminateStep::Finished(true),
                    Err(e) => r matches TerminateStep::Failed(m) && m@ == e@,
                }
            }
        } else if results@.len() == 0 {
            r == TerminateStep::Taskkill(false)
        } else {
            match results@[0] {
                Ok(_) => r == TerminateStep::Finished(false),
                Err(a) => if results@.len() == 1 {
                    r == TerminateStep::Taskkill(true)
                } else {
                    match results@[1] {
                        Ok(_) => r == TerminateStep::Finished(true),
                        Err(b) => r matches TerminateStep::Failed(m) && m@ == "taskkill failed for PID "@
                            + decimal(pid as nat) + ": graceful="@ + a@ + "; forced="@ + b@,
                    }
                },
            }
        },
{
    if results.len() == 0 {
        return TerminateStep::Taskkill(force);
    }
    match &results[0] {
        Ok(_) => TerminateStep::Finished(force),
        Err(a) => {
            if force {
                TerminateStep::Failed(a.clone())
            } else if results.len() == 1 {
                TerminateStep::Taskkill(true)
            } else {
                match &results[1] {
                    Ok(_) => TerminateStep::Finished(true),
                    Err(b) => {
                        let mut v = chars_of("taskkill failed for PID ");
                        push_decimal(&mut v, pid as u64);
                        push_str(&mut v, ": graceful=");
                        push_str(&mut v, a.as_str());
                        push_str(&mut v, "; forced=");
                        push_str(&mut v, b.as_str());
                        TerminateStep::Failed(string_from_chars(&v))
                    },
                }
            }
        },
    }
}

/// Why a process could not be ended.
pub fn invalid_pid_message() -> (r: &'static str)
    ensures
        r@ == "pid must be greater than 0"@,
{
    "pid must be greater than 0"
}

/// The error of a failed `kill`.
pub fn kill_failure(pid: u32, stderr: &str) -> (r: String)
    ensures
        r@ == "kill failed for PID "@ + decimal(pid as nat) + ": "@ + stderr@,
{
    let mut v = chars_of("kill failed for PID ");
    push_decimal(&mut v, pid as u64);
    push_str(&mut v, ": ");
    push_str(&mut v, stderr);
    string_from_chars(&v)
}

} // verus!
