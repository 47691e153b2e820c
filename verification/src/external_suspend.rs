//! Suspending Codex engines that run outside the limiter, and resuming them.

use crate::collections::text_views;
use crate::model::{text_view, SuspendedExternalEngine};
use crate::paths::{
    file_name, file_name_of, host_path_style, last_part_start, trimmed_path, PathStyle,
};
use crate::text::{
    begins_with, decimal, decimal_text, ends_with, finishes_with, from_chars, join_words,
    lowercase, parse_unsigned, same_text, spaced, split_on, str_view, split_text, split_words, to_chars,
    to_lowercase, unsigned_value, words,
};
use std::collections::HashMap;
use vstd::prelude::*;
use vstd::string::*;
use vstd::utf8::encode_utf8;

verus! {

broadcast use vstd::std_specs::hash::group_hash_axioms;

/// A running process.
#[derive(Debug, PartialEq, Eq)]
pub struct ProcessInfo {
    pub pid: u32,
    pub parent_pid: u32,
    pub start_time: u64,
    pub image_path: String,
}

impl Clone for ProcessInfo {
    fn clone(&self) -> (r: ProcessInfo)
        ensures
            r == *self,
    {
        ProcessInfo {
            pid: self.pid,
            parent_pid: self.parent_pid,
            start_time: self.start_time,
            image_path: self.image_path.clone(),
        }
    }
}

/// What came of suspending processes.
#[derive(Debug)]
pub struct SweepResult {
    pub suspended: Vec<SuspendedExternalEngine>,
    pub skipped: Vec<String>,
}

/// What came of resuming processes.
#[derive(Debug)]
pub struct ResumeResult {
    pub resumed: Vec<SuspendedExternalEngine>,
    pub skipped: Vec<String>,
}

/// How often a process is resumed until it runs.
pub const MAX_RESUME_ATTEMPTS: u32 = 32;

/// What is said of a process that stays suspended.
pub const STAYS_SUSPENDED: &'static str = "NtResumeProcess did not clear the suspend count after 32 attempts";

/// What comes after an attempt to resume a process.
#[derive(Debug, Clone, Copy, PartialEq, Eq, Structural)]
pub enum ResumeStep {
    /// The process runs.
    Resumed,
    /// The process was suspended more than once and is to be resumed again.
    Again,
    /// The process has been resumed often enough.
    GiveUp,
}

/// Decides what comes after so many attempts to resume a process, of which a thread may still be
/// suspended.
pub fn resume_step(attempts: u32, suspended: bool) -> (r: ResumeStep)
    ensures
        r == if !suspended {
            ResumeStep::Resumed
        } else if attempts < MAX_RESUME_ATTEMPTS {
            ResumeStep::Again
        } else {
            ResumeStep::GiveUp
        },
{
    if !suspended {
        ResumeStep::Resumed
    } else if attempts < MAX_RESUME_ATTEMPTS {
        ResumeStep::Again
    } else {
        ResumeStep::GiveUp
    }
}

/// What is suspended again when the limiter starts.
#[derive(Debug, Clone, Copy, PartialEq, Eq, Structural)]
pub struct StartupReconcilePlan {
    /// The processes that were suspended when the quota was reached.
    pub resuspend_persisted: bool,
    /// The processes that have come since.
    pub sweep_newcomers: bool,
}

/// Decides what is suspended again when the limiter starts.
pub fn startup_reconcile_plan(
    episode_in_force: bool,
    external_suspend: bool,
    prevent_new_sessions: bool,
) -> (r: StartupReconcilePlan)
    ensures
        r.resuspend_persisted == (episode_in_force && external_suspend),
        r.sweep_newcomers == (episode_in_force && external_suspend && prevent_new_sessions),
{
    StartupReconcilePlan {
        resuspend_persisted: episode_in_force && external_suspend,
        sweep_newcomers: episode_in_force && external_suspend && prevent_new_sessions,
    }
}

/// The name of a program's file, in small letters; the whole path where it has no name.
pub open spec fn image_of(style: PathStyle, path: Seq<char>) -> Seq<char> {
    lowercase(
        match file_name_of(style, path) {
            Some(name) => name,
            None => path,
        },
    )
}

/// The name of a program's file, in small letters.
pub fn image_name(style: PathStyle, path: &str) -> (r: String)
    ensures
        r@ == image_of(style, path@),
{
    match file_name(style, path) {
        Some(name) => to_lowercase(name.as_str()),
        None => to_lowercase(path),
    }
}

/// A program's name without the ending of Windows programs.
pub open spec fn bare_name(image: Seq<char>) -> Seq<char> {
    if ends_with(image, ".exe"@) {
        image.take(image.len() - 4)
    } else {
        image
    }
}

/// Whether the character may stand in a part of a target's name.
pub open spec fn target_char(c: char) -> bool {
    'a' <= c <= 'z' || 'A' <= c <= 'Z' || '0' <= c <= '9' || c == '_'
}

/// Whether the text is a part of a target's name.
pub open spec fn target_part(part: Seq<char>) -> bool {
    part.len() > 0 && forall|i: int| 0 <= i < part.len() ==> target_char(#[trigger] part[i])
}

/// Whether the part names an operating system.
pub open spec fn names_system(part: Seq<char>) -> bool {
    part == "windows"@ || part == "linux"@ || part == "darwin"@
}

/// Whether the text is a target's name: three or more parts, one of which names an operating
/// system.
pub open spec fn target_name(text: Seq<char>) -> bool {
    let parts = split_on(text, '-');
    &&& parts.len() >= 3
    &&& forall|i: int| 0 <= i < parts.len() ==> target_part(#[trigger] parts[i])
    &&& exists|i: int| 0 <= i < parts.len() && names_system(#[trigger] parts[i])
}

/// Whether a program of this name is a Codex engine.
pub open spec fn engine_image(image: Seq<char>) -> bool {
    ||| image == "codex"@
    ||| image == "codex.exe"@
    ||| "codex-"@.is_prefix_of(bare_name(image)) && target_name(bare_name(image).skip(6))
}

fn is_target_part(part: &str) -> (r: bool)
    ensures
        r == target_part(part@),
{
    let chars = to_chars(part);
    if chars.len() == 0 {
        return false;
    }
    let mut i: usize = 0;
    while i < chars.len()
        invariant
            i <= chars@.len(),
            chars@ == part@,
            forall|k: int| 0 <= k < i ==> target_char(#[trigger] part@[k]),
        decreases chars@.len() - i,
    {
        let c = chars[i];
        let fits = ('a' <= c && c <= 'z') || ('A' <= c && c <= 'Z') || ('0' <= c && c <= '9') || c
            == '_';
        if !fits {
            assert(!target_char(part@[i as int]));
            return false;
        }
        i += 1;
    }
    true
}

fn is_target_name(text: &str) -> (r: bool)
    ensures
        r == target_name(text@),
{
    let parts = split_text(text, '-');
    let ghost all = text_views(parts@);
    assert(all.len() == parts@.len());
    let mut system = false;
    let mut i: usize = 0;
    while i < parts.len()
        invariant
            i <= parts@.len(),
            all == text_views(parts@),
            all == split_on(text@, '-'),
            forall|k: int| 0 <= k < i ==> target_part(#[trigger] all[k]),
            system == exists|k: int| 0 <= k < i && names_system(#[trigger] all[k]),
        decreases parts@.len() - i,
    {
        assert(all[i as int] == parts@[i as int]@);
        let part = parts[i].as_str();
        if !is_target_part(part) {
            assert(!target_part(all[i as int]));
            return false;
        }
        if same_text(part, "windows") || same_text(part, "linux") || same_text(part, "darwin") {
            assert(names_system(all[i as int]));
            system = true;
        }
        i += 1;
    }
    parts.len() >= 3 && system
}

fn strip_exe(image: &str) -> (r: String)
    ensures
        r@ == bare_name(image@),
{
    if finishes_with(image, ".exe") {
        let chars = to_chars(image);
        proof {
            reveal_strlit(".exe");
        }
        let out = from_chars(&chars, 0, chars.len() - 4);
        assert(out@ =~= image@.take(image@.len() - 4));
        out
    } else {
        image.to_owned()
    }
}

/// Whether a program of this name is a Codex engine.
pub fn is_engine_image(image: &str) -> (r: bool)
    ensures
        r == engine_image(image@),
{
    if same_text(image, "codex") || same_text(image, "codex.exe") {
        return true;
    }
    let bare = strip_exe(image);
    if !begins_with(bare.as_str(), "codex-") {
        return false;
    }
    proof {
        reveal_strlit("codex-");
    }
    let chars = to_chars(bare.as_str());
    let target = from_chars(&chars, 6, chars.len());
    assert(target@ =~= bare@.skip(6));
    is_target_name(target.as_str())
}

/// Whether the program at this path is a Codex engine.
pub open spec fn engine_path(style: PathStyle, path: Seq<char>) -> bool {
    engine_image(image_of(style, path))
}

/// Without a backslash, a path has the same name on every platform.
pub proof fn style_matters_only_with_backslashes(path: Seq<char>)
    requires
        !path.contains('\\'),
    ensures
        file_name_of(PathStyle::Windows, path) == file_name_of(PathStyle::Posix, path),
        engine_path(PathStyle::Windows, path) == engine_path(PathStyle::Posix, path),
{
    lemma_trim_without_backslash(path);
    let short = trimmed_path(PathStyle::Posix, path);
    lemma_start_without_backslash(short);
}

proof fn lemma_trim_without_backslash(path: Seq<char>)
    requires
        !path.contains('\\'),
    ensures
        trimmed_path(PathStyle::Windows, path) == trimmed_path(PathStyle::Posix, path),
        !trimmed_path(PathStyle::Posix, path).contains('\\'),
    decreases path.len(),
{
    if path.len() > 0 {
        assert(path.contains(path.last()));
        if path.len() >= 2 {
            assert(path.contains(path[path.len() - 2]));
        }
        let rest = path.drop_last();
        assert(!rest.contains('\\')) by {
            if rest.contains('\\') {
                let k = choose|k: int| 0 <= k < rest.len() && rest[k] == '\\';
                assert(path[k] == '\\');
            }
        }
        lemma_trim_without_backslash(rest);
    }
}

proof fn lemma_start_without_backslash(path: Seq<char>)
    requires
        !path.contains('\\'),
    ensures
        last_part_start(PathStyle::Windows, path) == last_part_start(PathStyle::Posix, path),
    decreases path.len(),
{
    if path.len() > 0 {
        assert(path.contains(path.last()));
        let rest = path.drop_last();
        assert(!rest.contains('\\')) by {
            if rest.contains('\\') {
                let k = choose|k: int| 0 <= k < rest.len() && rest[k] == '\\';
                assert(path[k] == '\\');
            }
        }
        lemma_start_without_backslash(rest);
    }
}

/// Whether the program at this path is a Codex engine, as paths are written here.
pub fn is_external_codex_engine(path: &str) -> (r: bool)
    ensures
        r == engine_path(PathStyle::Posix, path@) || r == engine_path(PathStyle::Windows, path@),
        !path@.contains('\\') ==> r == engine_path(PathStyle::Posix, path@),
{
    let style = host_path_style();
    proof {
        if !path@.contains('\\') {
            style_matters_only_with_backslashes(path@);
        }
    }
    let image = image_name(style, path);
    is_engine_image(image.as_str())
}

/// Whether the program is one of the limiter's own.
pub open spec fn own_program(style: PathStyle, path: Seq<char>) -> bool {
    let name = bare_name(image_of(style, path));
    name == "codex-usage-limiter"@ || name == "codex-code-mode-host"@
}

/// Whether the program is one of the limiter's own.
pub fn explicitly_excluded(style: PathStyle, path: &str) -> (r: bool)
    ensures
        r == own_program(style, path@),
{
    let image = image_name(style, path);
    let bare = strip_exe(image.as_str());
    same_text(bare.as_str(), "codex-usage-limiter") || same_text(
        bare.as_str(),
        "codex-code-mode-host",
    )
}

proof fn lemma_split_holds_only_the_text(s: Seq<char>, separator: char, i: int, k: int)
    ensures
        split_on(s, separator).len() > 0,
        0 <= i < split_on(s, separator).len() && 0 <= k < split_on(s, separator)[i].len()
            ==> s.contains(split_on(s, separator)[i][k]),
    decreases s.len(),
{
    if s.len() > 0 {
        let rest = s.drop_last();
        let before = split_on(rest, separator);
        lemma_split_holds_only_the_text(rest, separator, i, k);
        assert(s.contains(s.last()));
        if 0 <= i < before.len() && 0 <= k < before[i].len() {
            let m = choose|m: int| 0 <= m < rest.len() && rest[m] == before[i][k];
            assert(s[m] == before[i][k]);
        }
    }
}

/// The limiter's own programs are never taken for an engine.
pub proof fn own_programs_are_no_engines(style: PathStyle, path: Seq<char>)
    requires
        own_program(style, path),
    ensures
        !engine_path(style, path),
{
    let image = image_of(style, path);
    let bare = bare_name(image);
    let target = bare.skip(6);
    reveal_strlit("codex-usage-limiter");
    reveal_strlit("codex-code-mode-host");
    reveal_strlit("codex");
    reveal_strlit("codex.exe");
    reveal_strlit("windows");
    reveal_strlit("linux");
    reveal_strlit("darwin");
    assert("codex-usage-limiter"@.len() == 19 && "codex-code-mode-host"@.len() == 20);
    assert("codex"@.len() == 5 && "codex.exe"@.len() == 9);
    reveal_strlit(".exe");
    assert(image.len() >= bare.len());
    assert(!target.contains('w') && !target.contains('x'));
    let parts = split_on(target, '-');
    assert forall|i: int| 0 <= i < parts.len() implies !names_system(#[trigger] parts[i]) by {
        if parts[i] == "windows"@ {
            lemma_split_holds_only_the_text(target, '-', i, 0);
            assert("windows"@[0] == 'w');
        }
        if parts[i] == "linux"@ {
            lemma_split_holds_only_the_text(target, '-', i, 4);
            assert("linux"@[4] == 'x');
        }
        if parts[i] == "darwin"@ {
            lemma_split_holds_only_the_text(target, '-', i, 3);
            assert("darwin"@[3] == 'w');
        }
    }
}

/// A number that stands for the bytes, the same on every run.
pub open spec fn stable_hash(bytes: Seq<u8>) -> u64
    decreases bytes.len(),
{
    if bytes.len() == 0 {
        0xcbf29ce484222325
    } else {
        (stable_hash(bytes.drop_last()) ^ (bytes.last() as u64)).wrapping_mul(0x100000001b3)
    }
}

/// A number that stands for the text, the same on every run.
pub fn stable_start_hash(value: &str) -> (r: u64)
    ensures
        r == stable_hash(encode_utf8(value@)),
{
    let bytes = value.as_bytes();
    let mut hash: u64 = 0xcbf29ce484222325;
    let mut i: usize = 0;
    while i < bytes.len()
        invariant
            i <= bytes@.len(),
            hash == stable_hash(bytes@.take(i as int)),
        decreases bytes@.len() - i,
    {
        proof {
            assert(bytes@.take(i + 1).drop_last() =~= bytes@.take(i as int));
            assert(bytes@.take(i + 1).last() == bytes@[i as int]);
        }
        hash = (hash ^ (bytes[i] as u64)).wrapping_mul(0x100000001b3);
        i += 1;
    }
    assert(bytes@.take(bytes@.len() as int) =~= bytes@);
    hash
}

/// What is known of a running process.
pub struct ProcessView {
    pub pid: u32,
    pub parent_pid: u32,
    pub start_time: u64,
    pub image_path: Seq<char>,
}

impl View for ProcessInfo {
    type V = ProcessView;

    open spec fn view(&self) -> ProcessView {
        ProcessView {
            pid: self.pid,
            parent_pid: self.parent_pid,
            start_time: self.start_time,
            image_path: self.image_path@,
        }
    }
}

/// What is known of the running processes.
pub open spec fn process_views(processes: Seq<ProcessInfo>) -> Seq<ProcessView> {
    processes.map_values(|process: ProcessInfo| process@)
}

/// A process id in decimal digits.
pub open spec fn pid_in(text: Seq<char>) -> Option<u32> {
    match unsigned_value(text) {
        Some(n) => if n <= u32::MAX { Some(n as u32) } else { None },
        None => None,
    }
}

/// The process that a line of a process list describes: its id, its parent's id, the five words
/// of its start time, and its program.
pub open spec fn process_in_line(line: Seq<char>) -> Option<ProcessView> {
    let fields = words(line);
    if fields.len() > 7 && pid_in(fields[0]) is Some && pid_in(fields[1]) is Some {
        Some(
            ProcessView {
                pid: pid_in(fields[0])->0,
                parent_pid: pid_in(fields[1])->0,
                start_time: stable_hash(encode_utf8(spaced(fields.subrange(2, 7)))),
                image_path: spaced(fields.subrange(7, fields.len() as int)),
            },
        )
    } else {
        None
    }
}

/// The processes that the lines describe, in order.
pub open spec fn processes_in_lines(lines: Seq<Seq<char>>) -> Seq<ProcessView>
    decreases lines.len(),
{
    if lines.len() == 0 {
        seq![]
    } else {
        let before = processes_in_lines(lines.drop_last());
        match process_in_line(lines.last()) {
            Some(process) => before.push(process),
            None => before,
        }
    }
}

fn parse_pid(text: &str) -> (r: Option<u32>)
    ensures
        r == pid_in(text@),
{
    match parse_unsigned(text) {
        Some(n) => if n <= 0xffff_ffff {
            Some(n as u32)
        } else {
            None
        },
        None => None,
    }
}

fn parse_process_line(line: &str) -> (r: Option<ProcessInfo>)
    ensures
        match r {
            Some(process) => process_in_line(line@) == Some(process@),
            None => process_in_line(line@) is None,
        },
{
    let fields = split_words(line);
    let ghost all = text_views(fields@);
    assert(all.len() == fields@.len());
    if fields.len() <= 7 {
        return None;
    }
    assert(all[0] == fields@[0]@ && all[1] == fields@[1]@);
    match (parse_pid(fields[0].as_str()), parse_pid(fields[1].as_str())) {
        (Some(pid), Some(parent_pid)) => {
            let started = join_words(&fields, 2, 7);
            let image_path = join_words(&fields, 7, fields.len());
            Some(
                ProcessInfo {
                    pid,
                    parent_pid,
                    start_time: stable_start_hash(started.as_str()),
                    image_path,
                },
            )
        },
        _ => None,
    }
}

/// The processes that a process list describes, one to a line.
pub fn parse_process_list(listing: &str) -> (r: Vec<ProcessInfo>)
    ensures
        process_views(r@) == processes_in_lines(split_on(listing@, '\n')),
{
    let lines = split_text(listing, '\n');
    let ghost all = text_views(lines@);
    let mut out: Vec<ProcessInfo> = Vec::new();
    let mut i: usize = 0;
    assert(process_views(out@) =~= processes_in_lines(all.take(0)));
    while i < lines.len()
        invariant
            i <= lines@.len(),
            all == text_views(lines@),
            process_views(out@) == processes_in_lines(all.take(i as int)),
        decreases lines@.len() - i,
    {
        proof {
            assert(all.take(i + 1).drop_last() =~= all.take(i as int));
            assert(all.take(i + 1).last() == lines@[i as int]@);
        }
        if let Some(process) = parse_process_line(lines[i].as_str()) {
            let ghost kept = out@;
            out.push(process);
            assert(process_views(out@) =~= process_views(kept).push(process@));
        }
        i += 1;
    }
    assert(all.take(all.len() as int) =~= all);
    out
}

/// Whether the chain leads from one of `roots` to `pid`, each process the parent of the next.
pub open spec fn leads_to(
    processes: Seq<ProcessInfo>,
    roots: Seq<u32>,
    chain: Seq<u32>,
    pid: u32,
) -> bool {
    &&& chain.len() > 0
    &&& roots.contains(chain[0])
    &&& chain.last() == pid
    &&& forall|i: int|
        #![trigger chain[i]]
        1 <= i < chain.len() ==> is_child(processes, chain[i - 1], chain[i])
}

/// Whether one of the processes has this id and this parent.
pub open spec fn is_child(processes: Seq<ProcessInfo>, parent_pid: u32, pid: u32) -> bool {
    exists|k: int|
        0 <= k < processes.len() && (#[trigger] processes[k]).pid == pid && processes[k].parent_pid
            == parent_pid
}

/// Whether the process is one of `roots` or descends from one.
pub open spec fn descends(processes: Seq<ProcessInfo>, roots: Seq<u32>, pid: u32) -> bool {
    exists|chain: Seq<u32>| leads_to(processes, roots, chain, pid)
}

/// How many of the processes are not among `known`.
spec fn unknown(processes: Seq<ProcessInfo>, known: Seq<u32>) -> nat
    decreases processes.len(),
{
    if processes.len() == 0 {
        0
    } else {
        unknown(processes.drop_last(), known) + (if known.contains(processes.last().pid) {
            0nat
        } else {
            1nat
        })
    }
}

proof fn lemma_unknown_shrinks(processes: Seq<ProcessInfo>, known: Seq<u32>, pid: u32)
    ensures
        unknown(processes, known.push(pid)) <= unknown(processes, known),
        !known.contains(pid) && (exists|k: int|
            0 <= k < processes.len() && (#[trigger] processes[k]).pid == pid) ==> unknown(
            processes,
            known.push(pid),
        ) < unknown(processes, known),
    decreases processes.len(),
{
    if processes.len() > 0 {
        let rest = processes.drop_last();
        lemma_unknown_shrinks(rest, known, pid);
        let last = processes.last().pid;
        assert(known.contains(last) ==> known.push(pid).contains(last)) by {
            if known.contains(last) {
                let k = choose|k: int| 0 <= k < known.len() && known[k] == last;
                assert(known.push(pid)[k] == last);
            }
        }
        if !known.contains(pid) && exists|k: int|
            0 <= k < processes.len() && (#[trigger] processes[k]).pid == pid {
            if last == pid {
                assert(known.push(pid)[known.len() as int] == pid);
                assert(known.push(pid).contains(last));
            } else {
                let k = choose|k: int| 0 <= k < processes.len() && (#[trigger] processes[k]).pid == pid;
                assert(rest[k].pid == pid);
            }
        }
    }
}

fn has_pid(pids: &Vec<u32>, pid: u32) -> (r: bool)
    ensures
        r == pids@.contains(pid),
{
    let mut i: usize = 0;
    while i < pids.len()
        invariant
            i <= pids@.len(),
            forall|k: int| 0 <= k < i ==> pids@[k] != pid,
        decreases pids@.len() - i,
    {
        if pids[i] == pid {
            return true;
        }
        i += 1;
    }
    false
}

fn copy_pids(pids: &Vec<u32>) -> (r: Vec<u32>)
    ensures
        r@ == pids@,
{
    let mut out: Vec<u32> = Vec::new();
    let mut i: usize = 0;
    while i < pids.len()
        invariant
            i <= pids@.len(),
            out@ == pids@.take(i as int),
        decreases pids@.len() - i,
    {
        out.push(pids[i]);
        i += 1;
    }
    assert(out@ =~= pids@);
    out
}

proof fn lemma_extend_chain(
    processes: Seq<ProcessInfo>,
    roots: Seq<u32>,
    parent_pid: u32,
    pid: u32,
)
    requires
        descends(processes, roots, parent_pid),
        is_child(processes, parent_pid, pid),
    ensures
        descends(processes, roots, pid),
{
    let chain = choose|chain: Seq<u32>| leads_to(processes, roots, chain, parent_pid);
    let longer = chain.push(pid);
    assert forall|i: int| #![trigger longer[i]] 1 <= i < longer.len() implies is_child(
        processes,
        longer[i - 1],
        longer[i],
    ) by {
        if i < chain.len() {
            assert(longer[i] == chain[i]);
        }
    }
    assert(longer[0] == chain[0]);
    assert(leads_to(processes, roots, longer, pid));
}

proof fn lemma_closed_holds_chain(
    processes: Seq<ProcessInfo>,
    roots: Seq<u32>,
    known: Seq<u32>,
    chain: Seq<u32>,
    i: int,
)
    requires
        chain.len() > 0,
        leads_to(processes, roots, chain, chain.last()),
        forall|pid: u32| roots.contains(pid) ==> known.contains(pid),
        forall|k: int|
            0 <= k < processes.len() && known.contains((#[trigger] processes[k]).parent_pid)
                ==> known.contains(processes[k].pid),
        0 <= i < chain.len(),
    ensures
        known.contains(chain[i]),
    decreases i,
{
    if i > 0 {
        lemma_closed_holds_chain(processes, roots, known, chain, i - 1);
        assert(is_child(processes, chain[i - 1], chain[i]));
    }
}

/// The processes that are among `roots` or descend from one of them, and no others.
pub fn descendants(processes: &Vec<ProcessInfo>, roots: &Vec<u32>) -> (r: Vec<u32>)
    ensures
        forall|pid: u32| #[trigger] r@.contains(pid) <==> descends(processes@, roots@, pid),
{
    let mut known = copy_pids(roots);
    proof {
        assert forall|pid: u32| #[trigger] known@.contains(pid) implies descends(
            processes@,
            roots@,
            pid,
        ) by {
            assert(leads_to(processes@, roots@, seq![pid], pid));
        }
    }
    let mut changed = true;
    while changed
        invariant
            forall|pid: u32| #[trigger] known@.contains(pid) ==> descends(processes@, roots@, pid),
            forall|pid: u32| roots@.contains(pid) ==> #[trigger] known@.contains(pid),
            !changed ==> forall|k: int|
                0 <= k < processes@.len() && known@.contains((#[trigger] processes@[k]).parent_pid)
                    ==> known@.contains(processes@[k].pid),
        decreases unknown(processes@, known@), changed as int,
    {
        changed = false;
        let ghost before = known@;
        let mut i: usize = 0;
        while i < processes.len()
            invariant
                i <= processes@.len(),
                forall|pid: u32| #[trigger]
                    known@.contains(pid) ==> descends(processes@, roots@, pid),
                forall|pid: u32| roots@.contains(pid) ==> #[trigger] known@.contains(pid),
                changed ==> unknown(processes@, known@) < unknown(processes@, before),
                !changed ==> known@ == before,
                !changed ==> forall|k: int|
                    0 <= k < i && known@.contains((#[trigger] processes@[k]).parent_pid)
                        ==> known@.contains(processes@[k].pid),
            decreases processes@.len() - i,
        {
            let pid: u32 = processes[i].pid;
            if !has_pid(&known, pid) && has_pid(&known, processes[i].parent_pid) {
                proof {
                    let parent_pid = processes@[i as int].parent_pid;
                    assert(is_child(processes@, parent_pid, pid));
                    lemma_extend_chain(processes@, roots@, parent_pid, pid);
                    lemma_unknown_shrinks(processes@, known@, pid);
                    assert(processes@[i as int].pid == pid);
                    let after = known@.push(pid);
                    assert forall|p: u32| #[trigger] after.contains(p) implies descends(
                        processes@,
                        roots@,
                        p,
                    ) by {
                        if p != pid {
                            let k = choose|k: int| 0 <= k < after.len() && after[k] == p;
                            assert(known@[k] == p);
                            assert(known@.contains(p));
                        }
                    }
                    assert forall|p: u32| roots@.contains(p) implies #[trigger] after.contains(
                        p,
                    ) by {
                        assert(known@.contains(p));
                        let k = choose|k: int| 0 <= k < known@.len() && known@[k] == p;
                        assert(after[k] == p);
                    }
                }
                known.push(pid);
                changed = true;
            }
            i += 1;
        }
    }
    proof {
        assert forall|pid: u32| descends(processes@, roots@, pid) implies #[trigger] known@.contains(
            pid,
        ) by {
            let chain = choose|chain: Seq<u32>| leads_to(processes@, roots@, chain, pid);
            lemma_closed_holds_chain(processes@, roots@, known@, chain, chain.len() - 1);
        }
    }
    known
}

/// A process of a certain moment: ids are used again.
pub open spec fn identity(entry: SuspendedExternalEngine) -> (u32, u64) {
    (entry.pid, entry.process_start_time)
}

/// What is said of a process that nothing is done to.
pub open spec fn remark(what: Seq<char>, image_path: Seq<char>, pid: u32) -> Seq<char> {
    what + image_path + " ("@ + decimal(pid as nat) + ")"@
}

fn make_remark(what: &str, image_path: &str, pid: u32) -> (r: String)
    ensures
        r@ == remark(what@, image_path@, pid),
{
    let mut out = what.to_owned();
    out.append(image_path);
    out.append(" (");
    out.append(decimal_text(pid as u64).as_str());
    out.append(")");
    out
}

fn make_failure_remark(what: &str, image_path: &str, pid: u32, error: &str) -> (r: String)
    ensures
        r@ == remark(what@, image_path@, pid) + ": "@ + error@,
{
    let mut out = make_remark(what, image_path, pid);
    out.append(": ");
    out.append(error);
    out
}

fn push_remark(remarks: &mut Vec<String>, remark: String)
    ensures
        text_views(final(remarks)@) == text_views(old(remarks)@).push(remark@),
{
    proof {
        crate::collections::lemma_pushed_text(remarks@, remark);
    }
    remarks.push(remark);
}

/// Where a sweep stands.
#[verifier::ext_equal]
pub struct SweepView {
    pub suspended: Seq<SuspendedExternalEngine>,
    pub skipped: Seq<Seq<char>>,
    /// The identities that are suspended.
    pub held: Seq<(u32, u64)>,
    /// The processes that suspending was tried on, in order.
    pub attempts: Seq<u32>,
}

/// What decides which processes a sweep leaves alone.
pub struct SweepRules {
    pub style: PathStyle,
    /// The limiter's own processes.
    pub own: Seq<u32>,
    /// The limiter's own program.
    pub current_image: Option<Seq<char>>,
}

impl SweepRules {
    /// Whether the process is left alone although it is an engine.
    pub open spec fn spares(self, process: ProcessInfo) -> bool {
        ||| self.own.contains(process.pid)
        ||| own_program(self.style, process.image_path@)
        ||| self.current_image matches Some(image) && lowercase(image) == lowercase(
            process.image_path@,
        )
    }
}

/// A sweep over the processes in order, where `outcomes` holds what each attempt to suspend
/// one came to. An identity that is suspended is not suspended again; one that could not be
/// suspended may be tried again.
pub open spec fn swept(
    processes: Seq<ProcessInfo>,
    rules: SweepRules,
    already: Seq<(u32, u64)>,
    now_ms: i64,
    outcomes: Seq<Result<(), String>>,
) -> SweepView
    decreases processes.len(),
{
    if processes.len() == 0 {
        SweepView { suspended: seq![], skipped: seq![], held: already, attempts: seq![] }
    } else {
        let before = swept(processes.drop_last(), rules, already, now_ms, outcomes);
        let process = processes.last();
        let id = (process.pid, process.start_time);
        if !engine_path(rules.style, process.image_path@) {
            before
        } else if rules.spares(process) {
            SweepView {
                skipped: before.skipped.push(
                    remark("skipped own/bundle engine "@, process.image_path@, process.pid),
                ),
                ..before
            }
        } else if before.held.contains(id) {
            before
        } else {
            match outcomes[before.attempts.len() as int] {
                Ok(_) => SweepView {
                    suspended: before.suspended.push(
                        SuspendedExternalEngine {
                            pid: process.pid,
                            process_start_time: process.start_time,
                            image_path: process.image_path,
                            suspended_at: now_ms,
                        },
                    ),
                    skipped: before.skipped,
                    held: before.held.push(id),
                    attempts: before.attempts.push(process.pid),
                },
                Err(error) => SweepView {
                    skipped: before.skipped.push(
                        remark("skipped "@, process.image_path@, process.pid) + ": "@ + error@,
                    ),
                    attempts: before.attempts.push(process.pid),
                    ..before
                },
            }
        }
    }
}

proof fn lemma_more_outcomes(
    processes: Seq<ProcessInfo>,
    rules: SweepRules,
    already: Seq<(u32, u64)>,
    now_ms: i64,
    outcomes: Seq<Result<(), String>>,
    outcome: Result<(), String>,
)
    requires
        swept(processes, rules, already, now_ms, outcomes).attempts.len() <= outcomes.len(),
    ensures
        swept(processes, rules, already, now_ms, outcomes.push(outcome)) == swept(
            processes,
            rules,
            already,
            now_ms,
            outcomes,
        ),
    decreases processes.len(),
{
    if processes.len() > 0 {
        let rest = processes.drop_last();
        assert(swept(rest, rules, already, now_ms, outcomes).attempts.len() <= swept(
            processes,
            rules,
            already,
            now_ms,
            outcomes,
        ).attempts.len());
        lemma_more_outcomes(rest, rules, already, now_ms, outcomes, outcome);
    }
}

fn has_identity(identities: &Vec<(u32, u64)>, pid: u32, start_time: u64) -> (r: bool)
    ensures
        r == identities@.contains((pid, start_time)),
{
    let mut i: usize = 0;
    while i < identities.len()
        invariant
            i <= identities@.len(),
            forall|k: int| 0 <= k < i ==> identities@[k] != (pid, start_time),
        decreases identities@.len() - i,
    {
        if identities[i].0 == pid && identities[i].1 == start_time {
            assert(identities@[i as int] == (pid, start_time));
            return true;
        }
        i += 1;
    }
    false
}

fn copy_identities(identities: &Vec<(u32, u64)>) -> (r: Vec<(u32, u64)>)
    ensures
        r@ == identities@,
{
    let mut out: Vec<(u32, u64)> = Vec::new();
    let mut i: usize = 0;
    while i < identities.len()
        invariant
            i <= identities@.len(),
            out@ == identities@.take(i as int),
        decreases identities@.len() - i,
    {
        out.push((identities[i].0, identities[i].1));
        i += 1;
    }
    assert(out@ =~= identities@);
    out
}

fn is_spared(
    style: PathStyle,
    own: &Vec<u32>,
    current_image: Option<&str>,
    process: &ProcessInfo,
) -> (r: bool)
    ensures
        r == (SweepRules {
            style,
            own: own@,
            current_image: str_view(current_image),
        }).spares(*process),
{
    if has_pid(own, process.pid) || explicitly_excluded(style, process.image_path.as_str()) {
        return true;
    }
    match current_image {
        Some(image) => {
            let left = to_lowercase(image);
            let right = to_lowercase(process.image_path.as_str());
            same_text(left.as_str(), right.as_str())
        },
        None => false,
    }
}

/// A sweep, and what the attempts so far came to.
#[verifier::ext_equal]
pub struct SweepRun {
    pub processes: Seq<ProcessInfo>,
    pub rules: SweepRules,
    /// The identities that were suspended before.
    pub already: Seq<(u32, u64)>,
    pub now_ms: i64,
    /// What each attempt came to, in order.
    pub outcomes: Seq<Result<(), String>>,
}

impl SweepRun {
    /// The sweep after one more attempt.
    pub open spec fn after(self, outcome: Result<(), String>) -> SweepRun {
        SweepRun { outcomes: self.outcomes.push(outcome), ..self }
    }

    /// Where the whole sweep stands.
    pub open spec fn end(self) -> SweepView {
        swept(self.processes, self.rules, self.already, self.now_ms, self.outcomes)
    }

    /// Whether the action is the one that the outcomes so far lead to: the next attempt of the
    /// sweep, or its result where every attempt has been made.
    pub open spec fn leads_to(self, action: SweepAction) -> bool {
        match action {
            SweepAction::Suspend { pid } => {
                &&& self.outcomes.len() < self.end().attempts.len()
                &&& pid == self.end().attempts[self.outcomes.len() as int]
            },
            SweepAction::Finished { result } => {
                &&& self.outcomes.len() == self.end().attempts.len()
                &&& result.suspended@ == self.end().suspended
                &&& text_views(result.skipped@) == self.end().skipped
            },
        }
    }
}

/// What a sweep has to do next. What suspending came to is handed back.
#[derive(Debug)]
pub enum SweepAction {
    /// The process is to be suspended.
    Suspend { pid: u32 },
    /// All is done.
    Finished { result: SweepResult },
}

/// A sweep under way.
pub struct Sweep {
    style: PathStyle,
    processes: Vec<ProcessInfo>,
    own: Vec<u32>,
    current_image: Option<String>,
    now_ms: i64,
    already: Ghost<Seq<(u32, u64)>>,
    outcomes: Ghost<Seq<Result<(), String>>>,
    held: Vec<(u32, u64)>,
    suspended: Vec<SuspendedExternalEngine>,
    skipped: Vec<String>,
    /// The process that is tried.
    next: usize,
}

impl View for Sweep {
    type V = SweepRun;

    closed spec fn view(&self) -> SweepRun {
        SweepRun {
            processes: self.processes@,
            rules: SweepRules {
                style: self.style,
                own: self.own@,
                current_image: text_view(self.current_image),
            },
            already: self.already@,
            now_ms: self.now_ms,
            outcomes: self.outcomes@,
        }
    }
}

/// What suspending has been tried on first stays first: the attempts of the first processes
/// come before those of the others.
proof fn lemma_attempts_of_first(run: SweepRun, count: int)
    requires
        0 <= count <= run.processes.len(),
    ensures
        swept(
            run.processes.take(count),
            run.rules,
            run.already,
            run.now_ms,
            run.outcomes,
        ).attempts.is_prefix_of(run.end().attempts),
    decreases run.processes.len() - count,
{
    if count < run.processes.len() {
        lemma_attempts_of_first(run, count + 1);
        assert(run.processes.take(count + 1).drop_last() =~= run.processes.take(count));
        let before = swept(
            run.processes.take(count),
            run.rules,
            run.already,
            run.now_ms,
            run.outcomes,
        ).attempts;
        let after = swept(
            run.processes.take(count + 1),
            run.rules,
            run.already,
            run.now_ms,
            run.outcomes,
        ).attempts;
        assert(before.is_prefix_of(after));
    } else {
        assert(run.processes.take(count) =~= run.processes);
    }
}

impl Sweep {
    /// Where the sweep over the processes before the next one stands.
    spec fn so_far(self) -> SweepView {
        swept(
            self@.processes.take(self.next as int),
            self@.rules,
            self@.already,
            self@.now_ms,
            self@.outcomes,
        )
    }

    /// Whether the lists hold what the sweep so far has come to.
    spec fn keeps(self) -> bool {
        &&& self.next <= self.processes@.len()
        &&& self.so_far().attempts.len() == self.outcomes@.len()
        &&& self.suspended@ == self.so_far().suspended
        &&& text_views(self.skipped@) == self.so_far().skipped
        &&& self.held@ == self.so_far().held
    }

    /// Whether the sweep waits for what an attempt comes to.
    pub closed spec fn awaits(self) -> bool {
        &&& self.keeps()
        &&& self.next < self.processes@.len()
        &&& engine_path(self.style, self.processes@[self.next as int].image_path@)
        &&& !self@.rules.spares(self.processes@[self.next as int])
        &&& !self.held@.contains(
            (
                self.processes@[self.next as int].pid,
                self.processes@[self.next as int].start_time,
            ),
        )
    }

    /// Begins to suspend the engines among the processes, where paths are written in `style`.
    /// `own` are the limiter's own processes.
    pub fn begin(
        style: PathStyle,
        processes: Vec<ProcessInfo>,
        own: Vec<u32>,
        already_suspended: &Vec<(u32, u64)>,
        current_image: Option<&str>,
        now_ms: i64,
    ) -> (r: (Sweep, SweepAction))
        ensures
            r.0@ == (SweepRun {
                processes: processes@,
                rules: SweepRules { style, own: own@, current_image: str_view(current_image) },
                already: already_suspended@,
                now_ms,
                outcomes: seq![],
            }),
            r.0@.leads_to(r.1),
            r.1 is Suspend ==> r.0.awaits(),
    {
        let image = match current_image {
            Some(image) => Some(image.to_owned()),
            None => None,
        };
        let mut sweep = Sweep {
            style,
            processes,
            own,
            current_image: image,
            now_ms,
            already: Ghost(already_suspended@),
            outcomes: Ghost(Seq::empty()),
            held: copy_identities(already_suspended),
            suspended: Vec::new(),
            skipped: Vec::new(),
            next: 0,
        };
        proof {
            assert(sweep@.processes.take(0) =~= Seq::<ProcessInfo>::empty());
            assert(text_views(sweep.skipped@) =~= Seq::<Seq<char>>::empty());
        }
        let action = sweep.go_on();
        (sweep, action)
    }

    /// Goes on to the next process that has to be suspended.
    fn go_on(&mut self) -> (action: SweepAction)
        requires
            old(self).keeps(),
        ensures
            final(self)@ == old(self)@,
            final(self)@.leads_to(action),
            action is Suspend ==> final(self).awaits(),
    {
        let ghost run = self@;
        while self.next < self.processes.len()
            invariant
                self.keeps(),
                self@ == run,
                run == old(self)@,
            decreases self.processes@.len() - self.next,
        {
            let process = &self.processes[self.next];
            proof {
                let i = self.next as int;
                assert(run.processes.take(i + 1).drop_last() =~= run.processes.take(i));
                assert(run.processes.take(i + 1).last() == run.processes[i]);
            }
            let image = image_name(self.style, process.image_path.as_str());
            if is_engine_image(image.as_str()) {
                let current = match &self.current_image {
                    Some(image) => Some(image.as_str()),
                    None => None,
                };
                assert(str_view(current) == text_view(self.current_image));
                if is_spared(self.style, &self.own, current, process) {
                    let remark = make_remark(
                        "skipped own/bundle engine ",
                        process.image_path.as_str(),
                        process.pid,
                    );
                    push_remark(&mut self.skipped, remark);
                } else if !has_identity(&self.held, process.pid, process.start_time) {
                    let pid = process.pid;
                    proof {
                        lemma_attempts_of_first(run, self.next + 1);
                        let here = self.so_far().attempts;
                        let with = swept(
                            run.processes.take(self.next + 1),
                            run.rules,
                            run.already,
                            run.now_ms,
                            run.outcomes,
                        ).attempts;
                        assert(with == here.push(pid));
                        assert(with[here.len() as int] == run.end().attempts[here.len() as int]);
                    }
                    return SweepAction::Suspend { pid };
                }
            }
            self.next += 1;
        }
        assert(run.processes.take(run.processes.len() as int) =~= run.processes);
        let mut suspended: Vec<SuspendedExternalEngine> = Vec::new();
        std::mem::swap(&mut suspended, &mut self.suspended);
        let mut skipped: Vec<String> = Vec::new();
        std::mem::swap(&mut skipped, &mut self.skipped);
        SweepAction::Finished { result: SweepResult { suspended, skipped } }
    }

    /// Goes on once suspending the process was tried.
    pub fn step(&mut self, outcome: Result<(), String>) -> (action: SweepAction)
        requires
            old(self).awaits(),
        ensures
            final(self)@ == old(self)@.after(outcome),
            final(self)@.leads_to(action),
            action is Suspend ==> final(self).awaits(),
    {
        let ghost run = self@;
        let ghost here = self.so_far();
        let process = &self.processes[self.next];
        assert(self.next < self.processes.len());
        proof {
            let i = self.next as int;
            assert(run.processes.take(i + 1).drop_last() =~= run.processes.take(i));
            assert(run.processes.take(i + 1).last() == run.processes[i]);
            lemma_more_outcomes(
                run.processes.take(i),
                run.rules,
                run.already,
                run.now_ms,
                run.outcomes,
                outcome,
            );
            assert(run.after(outcome).outcomes[here.attempts.len() as int] == outcome);
        }
        match outcome {
            Ok(()) => {
                self.held.push((process.pid, process.start_time));
                let entry = SuspendedExternalEngine {
                    pid: process.pid,
                    process_start_time: process.start_time,
                    image_path: process.image_path.clone(),
                    suspended_at: self.now_ms,
                };
                self.suspended.push(entry);
            },
            Err(error) => {
                let remark = make_failure_remark(
                    "skipped ",
                    process.image_path.as_str(),
                    process.pid,
                    error.as_str(),
                );
                push_remark(&mut self.skipped, remark);
            },
        }
        self.outcomes = Ghost(self.outcomes@.push(outcome));
        self.next += 1;
        self.go_on()
    }
}

/// Begins to suspend the engines among the processes, as paths are written here. What descends
/// from `own_session_pids` is left alone.
pub fn sweep_matching_processes(
    processes: Vec<ProcessInfo>,
    own_session_pids: &Vec<u32>,
    already_suspended: &Vec<(u32, u64)>,
    current_image: Option<&str>,
    now_ms: i64,
) -> (r: (Sweep, SweepAction))
    ensures
        r.0@ == (SweepRun {
            processes: processes@,
            rules: r.0@.rules,
            already: already_suspended@,
            now_ms,
            outcomes: seq![],
        }),
        forall|pid: u32| #[trigger]
            r.0@.rules.own.contains(pid) <==> descends(processes@, own_session_pids@, pid),
        r.0@.rules.current_image == str_view(current_image),
        r.0@.leads_to(r.1),
        r.1 is Suspend ==> r.0.awaits(),
{
    let style = host_path_style();
    let own = descendants(&processes, own_session_pids);
    Sweep::begin(style, processes, own, already_suspended, current_image, now_ms)
}

/// The first attempts of a sweep do not depend on what later ones come to.
pub proof fn attempts_rest_on_earlier_outcomes(run: SweepRun, outcome: Result<(), String>, i: int)
    requires
        0 <= i <= run.outcomes.len(),
        i < run.end().attempts.len(),
    ensures
        i < run.after(outcome).end().attempts.len(),
        run.after(outcome).end().attempts[i] == run.end().attempts[i],
    decreases run.processes.len(),
{
    if run.processes.len() > 0 {
        let rest = SweepRun { processes: run.processes.drop_last(), ..run };
        let before = rest.end();
        if i < before.attempts.len() {
            attempts_rest_on_earlier_outcomes(rest, outcome, i);
            assert(rest.after(outcome).processes == run.after(outcome).processes.drop_last());
        } else {
            lemma_more_outcomes(
                rest.processes,
                run.rules,
                run.already,
                run.now_ms,
                run.outcomes,
                outcome,
            );
        }
    }
}

/// Whether suspending a process is called for: it is an engine, is not spared, and was not
/// suspended before.
pub open spec fn eligible(rules: SweepRules, already: Seq<(u32, u64)>) -> spec_fn(
    ProcessInfo,
) -> bool {
    |process: ProcessInfo|
        engine_path(rules.style, process.image_path@) && !rules.spares(process)
            && !already.contains((process.pid, process.start_time))
}

/// The entry of a process that was suspended.
pub open spec fn entry_of(now_ms: i64) -> spec_fn(ProcessInfo) -> SuspendedExternalEngine {
    |process: ProcessInfo|
        SuspendedExternalEngine {
            pid: process.pid,
            process_start_time: process.start_time,
            image_path: process.image_path,
            suspended_at: now_ms,
        }
}

/// Where every attempt succeeds, the first process of each identity that is eligible is suspended,
/// in order, and suspending is tried once on each of these and on no other.
pub proof fn each_eligible_identity_is_suspended_once(run: SweepRun)
    requires
        run.outcomes.len() >= run.end().attempts.len(),
        forall|i: int| 0 <= i < run.outcomes.len() ==> (#[trigger] run.outcomes[i]) is Ok,
    ensures
        run.end().suspended == distinct_entries(
            run.processes.filter(eligible(run.rules, run.already)).map_values(entry_of(run.now_ms)),
        ),
        run.end().attempts == run.end().suspended.map_values(
            |entry: SuspendedExternalEngine| entry.pid,
        ),
    decreases run.processes.len(),
{
    let keep = eligible(run.rules, run.already);
    let entry = entry_of(run.now_ms);
    let end = run.end();
    reveal(Seq::filter);
    if run.processes.len() == 0 {
        assert(run.processes.filter(keep).map_values(entry) =~= Seq::<
            SuspendedExternalEngine,
        >::empty());
        assert(end.suspended =~= distinct_entries(run.processes.filter(keep).map_values(entry)));
        assert(end.attempts =~= end.suspended.map_values(|e: SuspendedExternalEngine| e.pid));
    } else {
        let rest = SweepRun { processes: run.processes.drop_last(), ..run };
        let before = rest.end();
        let process = run.processes.last();
        let id = (process.pid, process.start_time);
        each_eligible_identity_is_suspended_once(rest);
        lemma_held_by_sweep(rest);
        assert(has_entry(before.suspended, id) || run.already.contains(id)
            <==> before.held.contains(id));
        if keep(process) {
            let all = run.processes.filter(keep).map_values(entry);
            assert(all.drop_last() =~= rest.processes.filter(keep).map_values(entry));
            assert(all.last() == entry(process));
            assert(identity(entry(process)) == id);
        }
        assert(end.attempts =~= end.suspended.map_values(|e: SuspendedExternalEngine| e.pid));
    }
}

/// What a sweep holds is what was suspended before and what it has suspended.
proof fn lemma_held_by_sweep(run: SweepRun)
    ensures
        forall|id: (u32, u64)| #[trigger]
            run.end().held.contains(id) <==> (run.already.contains(id) || has_entry(
                run.end().suspended,
                id,
            )),
    decreases run.processes.len(),
{
    let end = run.end();
    if run.processes.len() > 0 {
        let rest = SweepRun { processes: run.processes.drop_last(), ..run };
        let before = rest.end();
        lemma_held_by_sweep(rest);
        let n = before.suspended.len() as int;
        if end.suspended.len() > n {
            let entry = end.suspended[n];
            assert forall|id: (u32, u64)| #[trigger] end.held.contains(id) <==> (
            run.already.contains(id) || has_entry(end.suspended, id)) by {
                if end.held.contains(id) {
                    let k = choose|k: int| 0 <= k < end.held.len() && end.held[k] == id;
                    if k < before.held.len() {
                        assert(before.held[k] == id);
                        assert(before.held.contains(id));
                        if has_entry(before.suspended, id) {
                            let m = choose|m: int|
                                0 <= m < before.suspended.len() && identity(
                                    #[trigger] before.suspended[m],
                                ) == id;
                            assert(end.suspended[m] == before.suspended[m]);
                        }
                    } else {
                        assert(identity(end.suspended[n]) == id);
                    }
                }
                if run.already.contains(id) || has_entry(end.suspended, id) {
                    if has_entry(end.suspended, id) {
                        let m = choose|m: int|
                            0 <= m < end.suspended.len() && identity(
                                #[trigger] end.suspended[m],
                            ) == id;
                        if m < n {
                            assert(end.suspended[m] == before.suspended[m]);
                            assert(has_entry(before.suspended, id));
                        } else {
                            assert(end.held[before.held.len() as int] == id);
                        }
                    }
                    if before.held.contains(id) {
                        let k = choose|k: int| 0 <= k < before.held.len() && before.held[k] == id;
                        assert(end.held[k] == id);
                    }
                }
            }
        }
    }
}

/// A sweep suspends no identity twice, and none that was suspended before.
pub proof fn sweep_suspends_each_identity_once(
    processes: Seq<ProcessInfo>,
    rules: SweepRules,
    already: Seq<(u32, u64)>,
    now_ms: i64,
    outcomes: Seq<Result<(), String>>,
)
    ensures
        ({
            let suspended = swept(processes, rules, already, now_ms, outcomes).suspended;
            &&& forall|i: int, j: int|
                0 <= i < j < suspended.len() ==> identity(#[trigger] suspended[i]) != identity(
                    #[trigger] suspended[j],
                )
            &&& forall|i: int|
                0 <= i < suspended.len() ==> !already.contains(identity(#[trigger] suspended[i]))
        }),
    decreases processes.len(),
{
    lemma_sweep_tracks(processes, rules, already, now_ms, outcomes);
    if processes.len() > 0 {
        let rest = processes.drop_last();
        lemma_sweep_tracks(rest, rules, already, now_ms, outcomes);
        sweep_suspends_each_identity_once(rest, rules, already, now_ms, outcomes);
        let before = swept(rest, rules, already, now_ms, outcomes);
        let end = swept(processes, rules, already, now_ms, outcomes);
        let n = before.suspended.len() as int;
        if end.suspended.len() > n {
            let id = (processes.last().pid, processes.last().start_time);
            assert(identity(end.suspended[n]) == id);
            assert(!before.held.contains(id));
            assert(!already.contains(id));
            assert forall|i: int, j: int| 0 <= i < j < end.suspended.len() implies identity(
                #[trigger] end.suspended[i],
            ) != identity(#[trigger] end.suspended[j]) by {
                assert(end.suspended[i] == before.suspended[i]);
                if j < n {
                    assert(end.suspended[j] == before.suspended[j]);
                } else {
                    assert(before.held.contains(identity(before.suspended[i])));
                }
            }
            assert forall|i: int| 0 <= i < end.suspended.len() implies !already.contains(
                identity(#[trigger] end.suspended[i]),
            ) by {
                if i < n {
                    assert(end.suspended[i] == before.suspended[i]);
                }
            }
        }
    }
}

proof fn lemma_sweep_tracks(
    processes: Seq<ProcessInfo>,
    rules: SweepRules,
    already: Seq<(u32, u64)>,
    now_ms: i64,
    outcomes: Seq<Result<(), String>>,
)
    ensures
        ({
            let end = swept(processes, rules, already, now_ms, outcomes);
            &&& forall|id: (u32, u64)| already.contains(id) ==> #[trigger] end.held.contains(id)
            &&& forall|i: int|
                0 <= i < end.suspended.len() ==> end.held.contains(
                    identity(#[trigger] end.suspended[i]),
                )
        }),
    decreases processes.len(),
{
    if processes.len() > 0 {
        let before = swept(processes.drop_last(), rules, already, now_ms, outcomes);
        let end = swept(processes, rules, already, now_ms, outcomes);
        lemma_sweep_tracks(processes.drop_last(), rules, already, now_ms, outcomes);
        assert forall|id: (u32, u64)| before.held.contains(id) implies end.held.contains(
            id,
        ) by {
            let k = choose|k: int| 0 <= k < before.held.len() && before.held[k] == id;
            assert(end.held[k] == id);
        }
        assert forall|i: int| 0 <= i < end.suspended.len() implies end.held.contains(
            identity(#[trigger] end.suspended[i]),
        ) by {
            if i < before.suspended.len() {
                assert(end.suspended[i] == before.suspended[i]);
            } else {
                assert(end.held[before.held.len() as int] == identity(end.suspended[i]));
            }
        }
    }
}

/// Whether the process is an engine that is left alone.
pub open spec fn spared_engine(rules: SweepRules) -> spec_fn(ProcessInfo) -> bool {
    |process: ProcessInfo|
        engine_path(rules.style, process.image_path@) && rules.spares(process)
}

/// What is said of an engine that is left alone.
pub open spec fn spared_remark() -> spec_fn(ProcessInfo) -> Seq<char> {
    |process: ProcessInfo|
        remark("skipped own/bundle engine "@, process.image_path@, process.pid)
}

/// Each engine that is left alone is remarked on once, and so is each attempt that failed; there
/// are no other remarks.
pub proof fn spared_engines_are_remarked_on_once(run: SweepRun)
    requires
        run.outcomes.len() >= run.end().attempts.len(),
    ensures
        run.end().skipped.len() == run.processes.filter(spared_engine(run.rules)).len()
            + run.end().attempts.len() - run.end().suspended.len(),
        forall|k: int|
            0 <= k < run.processes.len() && spared_engine(run.rules)(#[trigger] run.processes[k])
                ==> run.end().skipped.contains(spared_remark()(run.processes[k])),
        (forall|i: int| 0 <= i < run.outcomes.len() ==> (#[trigger] run.outcomes[i]) is Ok)
            ==> run.end().skipped == run.processes.filter(spared_engine(run.rules)).map_values(
            spared_remark(),
        ),
    decreases run.processes.len(),
{
    let keep = spared_engine(run.rules);
    let remarked = spared_remark();
    reveal(Seq::filter);
    if run.processes.len() == 0 {
        assert(run.end().skipped =~= run.processes.filter(keep).map_values(remarked));
    } else {
        let rest = SweepRun { processes: run.processes.drop_last(), ..run };
        let process = run.processes.last();
        let before = rest.end().skipped;
        let after = run.end().skipped;
        spared_engines_are_remarked_on_once(rest);
        if keep(process) {
            assert(rest.processes.filter(keep).push(process).map_values(remarked)
                =~= rest.processes.filter(keep).map_values(remarked).push(remarked(process)));
            assert(after == before.push(remarked(process)));
            assert(after[before.len() as int] == remarked(process));
        }
        assert forall|k: int|
            0 <= k < run.processes.len() && keep(#[trigger] run.processes[k]) implies after.contains(
            remarked(run.processes[k]),
        ) by {
            if k < rest.processes.len() {
                assert(keep(rest.processes[k]));
                assert(before.contains(remarked(rest.processes[k])));
                let i = choose|i: int| 0 <= i < before.len() && before[i] == remarked(
                    rest.processes[k],
                );
                assert(after[i] == before[i]);
            }
        }
    }
}

/// A sweep never tries to suspend a process of the limiter's own, and tries only engines that are
/// not to be spared.
pub proof fn sweep_spares_own_processes(run: SweepRun, i: int)
    requires
        0 <= i < run.end().attempts.len(),
    ensures
        !run.rules.own.contains(run.end().attempts[i]),
        exists|k: int|
            #![trigger run.processes[k]]
            0 <= k < run.processes.len() && run.processes[k].pid == run.end().attempts[i]
                && engine_path(run.rules.style, run.processes[k].image_path@) && !run.rules.spares(
                run.processes[k],
            ),
    decreases run.processes.len(),
{
    if run.processes.len() > 0 {
        let rest = SweepRun { processes: run.processes.drop_last(), ..run };
        if i < rest.end().attempts.len() {
            sweep_spares_own_processes(rest, i);
            let k = choose|k: int|
                #![trigger rest.processes[k]]
                0 <= k < rest.processes.len() && rest.processes[k].pid == rest.end().attempts[i]
                    && engine_path(run.rules.style, rest.processes[k].image_path@)
                    && !run.rules.spares(rest.processes[k]);
            assert(run.processes[k] == rest.processes[k]);
        } else {
            assert(run.processes[run.processes.len() - 1] == run.processes.last());
        }
    }
}

/// Whether one of the entries has this identity.
pub open spec fn has_entry(entries: Seq<SuspendedExternalEngine>, id: (u32, u64)) -> bool {
    exists|i: int| 0 <= i < entries.len() && identity(#[trigger] entries[i]) == id
}

/// The entries without those whose identity has come before.
pub open spec fn distinct_entries(entries: Seq<SuspendedExternalEngine>) -> Seq<
    SuspendedExternalEngine,
>
    decreases entries.len(),
{
    if entries.len() == 0 {
        entries
    } else {
        let before = distinct_entries(entries.drop_last());
        if has_entry(before, identity(entries.last())) {
            before
        } else {
            before.push(entries.last())
        }
    }
}

fn is_entry(entries: &Vec<SuspendedExternalEngine>, pid: u32, start_time: u64) -> (r: bool)
    ensures
        r == has_entry(entries@, (pid, start_time)),
{
    let mut i: usize = 0;
    while i < entries.len()
        invariant
            i <= entries@.len(),
            forall|k: int| 0 <= k < i ==> identity(#[trigger] entries@[k]) != (pid, start_time),
        decreases entries@.len() - i,
    {
        if entries[i].pid == pid && entries[i].process_start_time == start_time {
            assert(identity(entries@[i as int]) == (pid, start_time));
            return true;
        }
        i += 1;
    }
    false
}

fn push_distinct(out: &mut Vec<SuspendedExternalEngine>, entries: &Vec<SuspendedExternalEngine>, Ghost(
    done,
): Ghost<Seq<SuspendedExternalEngine>>)
    requires
        old(out)@ == distinct_entries(done),
    ensures
        final(out)@ == distinct_entries(done + entries@),
{
    let mut i: usize = 0;
    assert(done + entries@.take(0) =~= done);
    while i < entries.len()
        invariant
            i <= entries@.len(),
            out@ == distinct_entries(done + entries@.take(i as int)),
        decreases entries@.len() - i,
    {
        proof {
            let next = done + entries@.take(i + 1);
            assert(next.drop_last() =~= done + entries@.take(i as int));
            assert(next.last() == entries@[i as int]);
        }
        if !is_entry(out, entries[i].pid, entries[i].process_start_time) {
            out.push(entries[i].clone());
        }
        i += 1;
    }
    assert(entries@.take(entries@.len() as int) =~= entries@);
}

/// The entries of both lists, each identity once, the existing ones first.
pub fn merge_suspended_entries(
    existing: &Vec<SuspendedExternalEngine>,
    additions: &Vec<SuspendedExternalEngine>,
) -> (r: Vec<SuspendedExternalEngine>)
    ensures
        r@ == distinct_entries(existing@ + additions@),
{
    let mut out: Vec<SuspendedExternalEngine> = Vec::new();
    assert(distinct_entries(Seq::<SuspendedExternalEngine>::empty()) =~= out@);
    push_distinct(&mut out, existing, Ghost(Seq::<SuspendedExternalEngine>::empty()));
    assert(Seq::<SuspendedExternalEngine>::empty() + existing@ =~= existing@);
    push_distinct(&mut out, additions, Ghost(existing@));
    out
}

/// Whether the entry is alive and was not resumed.
pub open spec fn remains(
    live: Seq<SuspendedExternalEngine>,
    resumed: Seq<SuspendedExternalEngine>,
) -> spec_fn(SuspendedExternalEngine) -> bool {
    |entry: SuspendedExternalEngine|
        has_entry(live, identity(entry)) && !has_entry(resumed, identity(entry))
}

/// The entries that are still suspended: those that are alive and were not resumed, each
/// identity once.
pub fn remaining_after_resume(
    known: &Vec<SuspendedExternalEngine>,
    live: &Vec<SuspendedExternalEngine>,
    resumed: &Vec<SuspendedExternalEngine>,
) -> (r: Vec<SuspendedExternalEngine>)
    ensures
        r@ == distinct_entries(known@.filter(remains(live@, resumed@))),
{
    let ghost keep = remains(live@, resumed@);
    let mut out: Vec<SuspendedExternalEngine> = Vec::new();
    let mut i: usize = 0;
    proof {
        reveal(Seq::filter);
        assert(known@.take(0).filter(keep) =~= Seq::<SuspendedExternalEngine>::empty());
        assert(out@ =~= distinct_entries(known@.take(0).filter(keep)));
    }
    while i < known.len()
        invariant
            i <= known@.len(),
            keep == remains(live@, resumed@),
            out@ == distinct_entries(known@.take(i as int).filter(keep)),
        decreases known@.len() - i,
    {
        let entry = &known[i];
        proof {
            reveal(Seq::filter);
            assert(known@.take(i + 1).drop_last() =~= known@.take(i as int));
            assert(known@.take(i + 1).last() == known@[i as int]);
            let next = known@.take(i + 1).filter(keep);
            if keep(*entry) {
                assert(next.drop_last() =~= known@.take(i as int).filter(keep));
                assert(next.last() == *entry);
            }
        }
        if is_entry(live, entry.pid, entry.process_start_time) && !is_entry(
            resumed,
            entry.pid,
            entry.process_start_time,
        ) && !is_entry(&out, entry.pid, entry.process_start_time) {
            out.push(entry.clone());
        }
        i += 1;
    }
    assert(known@.take(known@.len() as int) =~= known@);
    out
}

/// Whether the entry's process is still running: its id has not been used again.
pub open spec fn is_running(processes: Map<u32, ProcessInfo>, entry: SuspendedExternalEngine) -> bool {
    processes.dom().contains(entry.pid) && processes[entry.pid].start_time
        == entry.process_start_time
}

/// Where a pass over entries stands.
#[verifier::ext_equal]
pub struct PassView {
    pub done: Seq<SuspendedExternalEngine>,
    pub skipped: Seq<Seq<char>>,
    /// The processes that something was tried on, in order.
    pub attempts: Seq<u32>,
}

/// A pass over the entries in order, where `outcomes` holds what each attempt came to. What is
/// no longer running, or has an id that was used again, is not touched.
pub open spec fn passed(
    entries: Seq<SuspendedExternalEngine>,
    processes: Map<u32, ProcessInfo>,
    failure: Seq<char>,
    outcomes: Seq<Result<(), String>>,
) -> PassView
    decreases entries.len(),
{
    if entries.len() == 0 {
        PassView { done: seq![], skipped: seq![], attempts: seq![] }
    } else {
        let before = passed(entries.drop_last(), processes, failure, outcomes);
        let entry = entries.last();
        if !processes.dom().contains(entry.pid) {
            PassView {
                skipped: before.skipped.push(
                    remark("dropped exited engine "@, entry.image_path@, entry.pid),
                ),
                ..before
            }
        } else if !is_running(processes, entry) {
            PassView {
                skipped: before.skipped.push(
                    remark("dropped PID-reused engine "@, entry.image_path@, entry.pid),
                ),
                ..before
            }
        } else {
            match outcomes[before.attempts.len() as int] {
                Ok(_) => PassView {
                    done: before.done.push(entry),
                    skipped: before.skipped,
                    attempts: before.attempts.push(entry.pid),
                },
                Err(error) => PassView {
                    done: before.done,
                    skipped: before.skipped.push(
                        remark(failure, entry.image_path@, entry.pid) + ": "@ + error@,
                    ),
                    attempts: before.attempts.push(entry.pid),
                },
            }
        }
    }
}

proof fn lemma_more_pass_outcomes(
    entries: Seq<SuspendedExternalEngine>,
    processes: Map<u32, ProcessInfo>,
    failure: Seq<char>,
    outcomes: Seq<Result<(), String>>,
    outcome: Result<(), String>,
)
    requires
        passed(entries, processes, failure, outcomes).attempts.len() <= outcomes.len(),
    ensures
        passed(entries, processes, failure, outcomes.push(outcome)) == passed(
            entries,
            processes,
            failure,
            outcomes,
        ),
    decreases entries.len(),
{
    if entries.len() > 0 {
        let rest = entries.drop_last();
        assert(passed(rest, processes, failure, outcomes).attempts.len() <= passed(
            entries,
            processes,
            failure,
            outcomes,
        ).attempts.len());
        lemma_more_pass_outcomes(rest, processes, failure, outcomes, outcome);
    }
}

/// A pass over entries, and what the attempts so far came to.
#[verifier::ext_equal]
pub struct PassRun {
    pub entries: Seq<SuspendedExternalEngine>,
    pub processes: Map<u32, ProcessInfo>,
    /// What a remark on an attempt that failed begins with.
    pub failure: Seq<char>,
    /// What each attempt came to, in order.
    pub outcomes: Seq<Result<(), String>>,
}

impl PassRun {
    /// The pass after one more attempt.
    pub open spec fn after(self, outcome: Result<(), String>) -> PassRun {
        PassRun { outcomes: self.outcomes.push(outcome), ..self }
    }

    /// Where the whole pass stands.
    pub open spec fn end(self) -> PassView {
        passed(self.entries, self.processes, self.failure, self.outcomes)
    }

    /// Whether this process is the next that something is tried on.
    pub open spec fn tries(self, pid: u32) -> bool {
        &&& self.outcomes.len() < self.end().attempts.len()
        &&& pid == self.end().attempts[self.outcomes.len() as int]
    }

    /// Whether every attempt has been made, and the lists are what the pass has come to.
    pub open spec fn ends_with(
        self,
        done: Seq<SuspendedExternalEngine>,
        skipped: Seq<String>,
    ) -> bool {
        &&& self.outcomes.len() == self.end().attempts.len()
        &&& done == self.end().done
        &&& text_views(skipped) == self.end().skipped
    }
}

/// What a pass has to do next.
enum PassAction {
    Try { pid: u32 },
    Finished { done: Vec<SuspendedExternalEngine>, skipped: Vec<String> },
}

/// A pass under way.
struct Pass {
    entries: Vec<SuspendedExternalEngine>,
    processes: HashMap<u32, ProcessInfo>,
    failure: String,
    outcomes: Ghost<Seq<Result<(), String>>>,
    done: Vec<SuspendedExternalEngine>,
    skipped: Vec<String>,
    /// The entry whose process is tried.
    next: usize,
}

proof fn lemma_pass_attempts_of_first(run: PassRun, count: int)
    requires
        0 <= count <= run.entries.len(),
    ensures
        passed(
            run.entries.take(count),
            run.processes,
            run.failure,
            run.outcomes,
        ).attempts.is_prefix_of(run.end().attempts),
    decreases run.entries.len() - count,
{
    if count < run.entries.len() {
        lemma_pass_attempts_of_first(run, count + 1);
        assert(run.entries.take(count + 1).drop_last() =~= run.entries.take(count));
        let before = passed(
            run.entries.take(count),
            run.processes,
            run.failure,
            run.outcomes,
        ).attempts;
        let after = passed(
            run.entries.take(count + 1),
            run.processes,
            run.failure,
            run.outcomes,
        ).attempts;
        assert(before.is_prefix_of(after));
    } else {
        assert(run.entries.take(count) =~= run.entries);
    }
}

impl Pass {
    spec fn run(self) -> PassRun {
        PassRun {
            entries: self.entries@,
            processes: self.processes@,
            failure: self.failure@,
            outcomes: self.outcomes@,
        }
    }

    /// Where the pass over the entries before the next one stands.
    spec fn so_far(self) -> PassView {
        passed(
            self.entries@.take(self.next as int),
            self.processes@,
            self.failure@,
            self.outcomes@,
        )
    }

    spec fn keeps(self) -> bool {
        &&& self.next <= self.entries@.len()
        &&& self.so_far().attempts.len() == self.outcomes@.len()
        &&& self.done@ == self.so_far().done
        &&& text_views(self.skipped@) == self.so_far().skipped
    }

    spec fn awaits(self) -> bool {
        &&& self.keeps()
        &&& self.next < self.entries@.len()
        &&& is_running(self.processes@, self.entries@[self.next as int])
    }

    spec fn leads_to(self, action: PassAction) -> bool {
        match action {
            PassAction::Try { pid } => self.run().tries(pid) && self.awaits(),
            PassAction::Finished { done, skipped } => self.run().ends_with(done@, skipped@),
        }
    }

    fn begin(
        entries: Vec<SuspendedExternalEngine>,
        processes: HashMap<u32, ProcessInfo>,
        failure: &str,
    ) -> (r: (Pass, PassAction))
        ensures
            r.0.run() == (PassRun {
                entries: entries@,
                processes: processes@,
                failure: failure@,
                outcomes: seq![],
            }),
            r.0.leads_to(r.1),
    {
        let mut pass = Pass {
            entries,
            processes,
            failure: failure.to_owned(),
            outcomes: Ghost(Seq::empty()),
            done: Vec::new(),
            skipped: Vec::new(),
            next: 0,
        };
        proof {
            assert(pass.entries@.take(0) =~= Seq::<SuspendedExternalEngine>::empty());
            assert(text_views(pass.skipped@) =~= Seq::<Seq<char>>::empty());
        }
        let action = pass.go_on();
        (pass, action)
    }

    fn go_on(&mut self) -> (action: PassAction)
        requires
            old(self).keeps(),
        ensures
            final(self).run() == old(self).run(),
            final(self).leads_to(action),
    {
        let ghost run = self.run();
        while self.next < self.entries.len()
            invariant
                self.keeps(),
                self.run() == run,
                run == old(self).run(),
            decreases self.entries@.len() - self.next,
        {
            let entry = &self.entries[self.next];
            proof {
                let i = self.next as int;
                assert(run.entries.take(i + 1).drop_last() =~= run.entries.take(i));
                assert(run.entries.take(i + 1).last() == run.entries[i]);
            }
            match self.processes.get(&entry.pid) {
                None => {
                    let remark = make_remark(
                        "dropped exited engine ",
                        entry.image_path.as_str(),
                        entry.pid,
                    );
                    push_remark(&mut self.skipped, remark);
                },
                Some(process) => {
                    if process.start_time == entry.process_start_time {
                        let pid = entry.pid;
                        proof {
                            lemma_pass_attempts_of_first(run, self.next + 1);
                            let here = self.so_far().attempts;
                            let with = passed(
                                run.entries.take(self.next + 1),
                                run.processes,
                                run.failure,
                                run.outcomes,
                            ).attempts;
                            assert(with == here.push(pid));
                            assert(with[here.len() as int]
                                == run.end().attempts[here.len() as int]);
                        }
                        return PassAction::Try { pid };
                    }
                    let remark = make_remark(
                        "dropped PID-reused engine ",
                        entry.image_path.as_str(),
                        entry.pid,
                    );
                    push_remark(&mut self.skipped, remark);
                },
            }
            self.next += 1;
        }
        assert(run.entries.take(run.entries.len() as int) =~= run.entries);
        let mut done: Vec<SuspendedExternalEngine> = Vec::new();
        std::mem::swap(&mut done, &mut self.done);
        let mut skipped: Vec<String> = Vec::new();
        std::mem::swap(&mut skipped, &mut self.skipped);
        PassAction::Finished { done, skipped }
    }

    fn step(&mut self, outcome: Result<(), String>) -> (action: PassAction)
        requires
            old(self).awaits(),
        ensures
            final(self).run() == old(self).run().after(outcome),
            final(self).leads_to(action),
    {
        let ghost run = self.run();
        let ghost here = self.so_far();
        let entry = &self.entries[self.next];
        assert(self.next < self.entries.len());
        proof {
            let i = self.next as int;
            assert(run.entries.take(i + 1).drop_last() =~= run.entries.take(i));
            assert(run.entries.take(i + 1).last() == run.entries[i]);
            lemma_more_pass_outcomes(
                run.entries.take(i),
                run.processes,
                run.failure,
                run.outcomes,
                outcome,
            );
            assert(run.after(outcome).outcomes[here.attempts.len() as int] == outcome);
        }
        match outcome {
            Ok(()) => {
                let entry = entry.clone();
                self.done.push(entry);
            },
            Err(error) => {
                let remark = make_failure_remark(
                    self.failure.as_str(),
                    entry.image_path.as_str(),
                    entry.pid,
                    error.as_str(),
                );
                push_remark(&mut self.skipped, remark);
            },
        }
        self.outcomes = Ghost(self.outcomes@.push(outcome));
        self.next += 1;
        self.go_on()
    }
}

/// What resuming has to do next. What resuming the process came to is handed back.
#[derive(Debug)]
pub enum ResumeAction {
    /// The process is to be resumed.
    Resume { pid: u32 },
    /// All is done.
    Finished { result: ResumeResult },
}

impl PassRun {
    /// Whether the action is the one that the outcomes so far lead to: the next attempt of the
    /// pass, or its result where every attempt has been made.
    pub open spec fn leads_to_resume(self, action: ResumeAction) -> bool {
        match action {
            ResumeAction::Resume { pid } => self.tries(pid),
            ResumeAction::Finished { result } => self.ends_with(
                result.resumed@,
                result.skipped@,
            ),
        }
    }

    /// Whether the action is the one that the outcomes so far lead to: the next attempt of the
    /// pass, or its result where every attempt has been made.
    pub open spec fn leads_to_suspend(self, action: SweepAction) -> bool {
        match action {
            SweepAction::Suspend { pid } => self.tries(pid),
            SweepAction::Finished { result } => self.ends_with(
                result.suspended@,
                result.skipped@,
            ),
        }
    }
}

/// Resuming entries, under way.
pub struct Resumption {
    pass: Pass,
}

impl View for Resumption {
    type V = PassRun;

    closed spec fn view(&self) -> PassRun {
        self.pass.run()
    }
}

fn resume_action(action: PassAction) -> (r: ResumeAction)
    ensures
        match action {
            PassAction::Try { pid } => r == (ResumeAction::Resume { pid }),
            PassAction::Finished { done, skipped } => r == (ResumeAction::Finished {
                result: ResumeResult { resumed: done, skipped },
            }),
        },
{
    match action {
        PassAction::Try { pid } => ResumeAction::Resume { pid },
        PassAction::Finished { done, skipped } => ResumeAction::Finished {
            result: ResumeResult { resumed: done, skipped },
        },
    }
}

impl Resumption {
    /// Whether resuming waits for what an attempt comes to.
    pub closed spec fn awaits(self) -> bool {
        self.pass.awaits()
    }

    /// Goes on once resuming the process was tried.
    pub fn step(&mut self, outcome: Result<(), String>) -> (action: ResumeAction)
        requires
            old(self).awaits(),
        ensures
            final(self)@ == old(self)@.after(outcome),
            final(self)@.leads_to_resume(action),
            action is Resume ==> final(self).awaits(),
    {
        let action = self.pass.step(outcome);
        resume_action(action)
    }
}

/// Begins to resume the entries whose processes are still running, each identity once.
pub fn resume_matching_entries(
    entries: &Vec<SuspendedExternalEngine>,
    processes: HashMap<u32, ProcessInfo>,
) -> (r: (Resumption, ResumeAction))
    ensures
        r.0@ == (PassRun {
            entries: distinct_entries(entries@),
            processes: processes@,
            failure: "skipped resume "@,
            outcomes: seq![],
        }),
        r.0@.leads_to_resume(r.1),
        r.1 is Resume ==> r.0.awaits(),
{
    let mut each: Vec<SuspendedExternalEngine> = Vec::new();
    assert(distinct_entries(Seq::<SuspendedExternalEngine>::empty()) =~= each@);
    push_distinct(&mut each, entries, Ghost(Seq::<SuspendedExternalEngine>::empty()));
    assert(Seq::<SuspendedExternalEngine>::empty() + entries@ =~= entries@);
    let (pass, action) = Pass::begin(each, processes, "skipped resume ");
    (Resumption { pass }, resume_action(action))
}

/// Suspending entries again, under way.
pub struct Resuspension {
    pass: Pass,
}

impl View for Resuspension {
    type V = PassRun;

    closed spec fn view(&self) -> PassRun {
        self.pass.run()
    }
}

fn suspend_action(action: PassAction) -> (r: SweepAction)
    ensures
        match action {
            PassAction::Try { pid } => r == (SweepAction::Suspend { pid }),
            PassAction::Finished { done, skipped } => r == (SweepAction::Finished {
                result: SweepResult { suspended: done, skipped },
            }),
        },
{
    match action {
        PassAction::Try { pid } => SweepAction::Suspend { pid },
        PassAction::Finished { done, skipped } => SweepAction::Finished {
            result: SweepResult { suspended: done, skipped },
        },
    }
}

impl Resuspension {
    /// Whether suspending again waits for what an attempt comes to.
    pub closed spec fn awaits(self) -> bool {
        self.pass.awaits()
    }

    /// Goes on once suspending the process was tried.
    pub fn step(&mut self, outcome: Result<(), String>) -> (action: SweepAction)
        requires
            old(self).awaits(),
        ensures
            final(self)@ == old(self)@.after(outcome),
            final(self)@.leads_to_suspend(action),
            action is Suspend ==> final(self).awaits(),
    {
        let action = self.pass.step(outcome);
        suspend_action(action)
    }
}

/// Copies the entries.
fn copy_entries(entries: &Vec<SuspendedExternalEngine>) -> (r: Vec<SuspendedExternalEngine>)
    ensures
        r@ == entries@,
{
    let mut out: Vec<SuspendedExternalEngine> = Vec::new();
    let mut i: usize = 0;
    while i < entries.len()
        invariant
            i <= entries@.len(),
            out@ == entries@.take(i as int),
        decreases entries@.len() - i,
    {
        out.push(entries[i].clone());
        i += 1;
        assert(out@ =~= entries@.take(i as int));
    }
    assert(out@ =~= entries@);
    out
}

/// Begins to suspend again the entries whose processes are still running.
pub fn resuspend_matching_entries(
    entries: &Vec<SuspendedExternalEngine>,
    processes: HashMap<u32, ProcessInfo>,
) -> (r: (Resuspension, SweepAction))
    ensures
        r.0@ == (PassRun {
            entries: entries@,
            processes: processes@,
            failure: "skipped re-suspend "@,
            outcomes: seq![],
        }),
        r.0@.leads_to_suspend(r.1),
        r.1 is Suspend ==> r.0.awaits(),
{
    let (pass, action) = Pass::begin(copy_entries(entries), processes, "skipped re-suspend ");
    (Resuspension { pass }, suspend_action(action))
}

/// The entries whose processes are still running.
pub open spec fn running_entries(
    entries: Seq<SuspendedExternalEngine>,
    processes: Map<u32, ProcessInfo>,
) -> Seq<SuspendedExternalEngine> {
    entries.filter(|entry: SuspendedExternalEngine| is_running(processes, entry))
}

/// What is said of each entry whose process is no longer running.
pub open spec fn stale_remarks(
    entries: Seq<SuspendedExternalEngine>,
    processes: Map<u32, ProcessInfo>,
) -> Seq<Seq<char>>
    decreases entries.len(),
{
    if entries.len() == 0 {
        seq![]
    } else {
        let before = stale_remarks(entries.drop_last(), processes);
        let entry = entries.last();
        if is_running(processes, entry) {
            before
        } else {
            before.push(
                remark("dropped stale suspended engine "@, entry.image_path@, entry.pid),
            )
        }
    }
}

/// The entries whose processes are still running, each identity once, and what is said of the
/// others.
pub fn matching_entries(
    entries: &Vec<SuspendedExternalEngine>,
    processes: &HashMap<u32, ProcessInfo>,
) -> (r: (Vec<SuspendedExternalEngine>, Vec<String>))
    ensures
        r.0@ == distinct_entries(running_entries(entries@, processes@)),
        text_views(r.1@) == stale_remarks(entries@, processes@),
{
    let ghost keep = |entry: SuspendedExternalEngine| is_running(processes@, entry);
    let mut live: Vec<SuspendedExternalEngine> = Vec::new();
    let mut skipped: Vec<String> = Vec::new();
    let mut i: usize = 0;
    proof {
        reveal(Seq::filter);
        assert(entries@.take(0).filter(keep) =~= Seq::<SuspendedExternalEngine>::empty());
        assert(live@ =~= distinct_entries(entries@.take(0).filter(keep)));
        assert(text_views(skipped@) =~= stale_remarks(entries@.take(0), processes@));
    }
    while i < entries.len()
        invariant
            i <= entries@.len(),
            keep == (|entry: SuspendedExternalEngine| is_running(processes@, entry)),
            live@ == distinct_entries(entries@.take(i as int).filter(keep)),
            text_views(skipped@) == stale_remarks(entries@.take(i as int), processes@),
        decreases entries@.len() - i,
    {
        let entry = &entries[i];
        proof {
            reveal(Seq::filter);
            assert(entries@.take(i + 1).drop_last() =~= entries@.take(i as int));
            assert(entries@.take(i + 1).last() == entries@[i as int]);
            let next = entries@.take(i + 1).filter(keep);
            if keep(*entry) {
                assert(next.drop_last() =~= entries@.take(i as int).filter(keep));
                assert(next.last() == *entry);
            }
        }
        let running = match processes.get(&entry.pid) {
            Some(process) => process.start_time == entry.process_start_time,
            None => false,
        };
        if running {
            if !is_entry(&live, entry.pid, entry.process_start_time) {
                live.push(entry.clone());
            }
        } else {
            push_remark(
                &mut skipped,
                make_remark(
                    "dropped stale suspended engine ",
                    entry.image_path.as_str(),
                    entry.pid,
                ),
            );
        }
        i += 1;
    }
    assert(entries@.take(entries@.len() as int) =~= entries@);
    (live, skipped)
}

/// The processes by their ids; of several with one id, the last.
pub open spec fn by_pid(processes: Seq<ProcessInfo>) -> Map<u32, ProcessInfo>
    decreases processes.len(),
{
    if processes.len() == 0 {
        Map::empty()
    } else {
        by_pid(processes.drop_last()).insert(processes.last().pid, processes.last())
    }
}

/// The processes by their ids.
pub fn index_processes(processes: &Vec<ProcessInfo>) -> (r: HashMap<u32, ProcessInfo>)
    ensures
        r@ == by_pid(processes@),
{
    let mut out: HashMap<u32, ProcessInfo> = HashMap::new();
    let mut i: usize = 0;
    assert(processes@.take(0) =~= Seq::<ProcessInfo>::empty());
    while i < processes.len()
        invariant
            i <= processes@.len(),
            out@ == by_pid(processes@.take(i as int)),
        decreases processes@.len() - i,
    {
        proof {
            assert(processes@.take(i + 1).drop_last() =~= processes@.take(i as int));
            assert(processes@.take(i + 1).last() == processes@[i as int]);
        }
        let _ = out.insert(processes[i].pid, processes[i].clone());
        i += 1;
    }
    assert(processes@.take(processes@.len() as int) =~= processes@);
    out
}

/// A remark that the processes cannot be listed.
fn unavailable(what: &str, error: &str) -> (r: Vec<String>)
    ensures
        text_views(r@) == seq![what@ + error@],
{
    let mut message = what.to_owned();
    message.append(error);
    let mut out: Vec<String> = Vec::new();
    out.push(message);
    assert(text_views(out@) =~= seq![what@ + error@]);
    out
}

/// Begins to suspend the engines that run outside the limiter. `processes` is what listing them
/// came to; `own_pid` is the limiter's own process. Where they cannot be listed, nothing is
/// suspended, and the result says so.
pub fn sweep(
    processes: Result<Vec<ProcessInfo>, String>,
    own_session_pids: Vec<u32>,
    own_pid: u32,
    already_suspended: &Vec<(u32, u64)>,
    current_image: Option<&str>,
    now_ms: i64,
) -> (r: Result<(Sweep, SweepAction), SweepResult>)
    ensures
        match processes {
            Ok(running) => r matches Ok((sweep, action)) && sweep@ == (SweepRun {
                processes: running@,
                rules: sweep@.rules,
                already: already_suspended@,
                now_ms,
                outcomes: seq![],
            }) && (forall|pid: u32| #[trigger]
                sweep@.rules.own.contains(pid) <==> descends(
                    running@,
                    own_session_pids@.push(own_pid),
                    pid,
                )) && sweep@.rules.current_image == str_view(current_image) && sweep@.leads_to(
                action,
            ) && (action is Suspend ==> sweep.awaits()),
            Err(error) => r matches Err(result) && result.suspended@.len() == 0 && text_views(
                result.skipped@,
            ) == seq!["external engine sweep unavailable: "@ + error@],
        },
{
    match processes {
        Ok(running) => {
            let mut roots = own_session_pids;
            roots.push(own_pid);
            Ok(
                sweep_matching_processes(
                    running,
                    &roots,
                    already_suspended,
                    current_image,
                    now_ms,
                ),
            )
        },
        Err(error) => Err(
            SweepResult {
                suspended: Vec::new(),
                skipped: unavailable("external engine sweep unavailable: ", error.as_str()),
            },
        ),
    }
}

/// Begins to resume the entries whose processes are still running. `processes` is what listing
/// them came to. Where they cannot be listed, nothing is resumed, and the result says so.
pub fn resume(
    entries: &Vec<SuspendedExternalEngine>,
    processes: Result<Vec<ProcessInfo>, String>,
) -> (r: Result<(Resumption, ResumeAction), ResumeResult>)
    ensures
        match processes {
            Ok(running) => r matches Ok((resumption, action)) && resumption@ == (PassRun {
                entries: distinct_entries(entries@),
                processes: by_pid(running@),
                failure: "skipped resume "@,
                outcomes: seq![],
            }) && resumption@.leads_to_resume(action) && (action is Resume ==> resumption.awaits()),
            Err(error) => r matches Err(result) && result.resumed@.len() == 0 && text_views(
                result.skipped@,
            ) == seq!["external engine resume unavailable: "@ + error@],
        },
{
    match processes {
        Ok(running) => {
            let index = index_processes(&running);
            Ok(resume_matching_entries(entries, index))
        },
        Err(error) => Err(
            ResumeResult {
                resumed: Vec::new(),
                skipped: unavailable("external engine resume unavailable: ", error.as_str()),
            },
        ),
    }
}

/// Begins to suspend again exactly the entries whose processes are still running. `processes` is
/// what listing them came to. Where they cannot be listed, nothing is suspended, and the result
/// says so.
pub fn resuspend(
    entries: &Vec<SuspendedExternalEngine>,
    processes: Result<Vec<ProcessInfo>, String>,
) -> (r: Result<(Resuspension, SweepAction), SweepResult>)
    ensures
        match processes {
            Ok(running) => r matches Ok((resuspension, action)) && resuspension@ == (PassRun {
                entries: entries@,
                processes: by_pid(running@),
                failure: "skipped re-suspend "@,
                outcomes: seq![],
            }) && resuspension@.leads_to_suspend(action) && (action is Suspend
                ==> resuspension.awaits()),
            Err(error) => r matches Err(result) && result.suspended@.len() == 0 && text_views(
                result.skipped@,
            ) == seq!["external engine re-suspend unavailable: "@ + error@],
        },
{
    match processes {
        Ok(running) => {
            let index = index_processes(&running);
            Ok(resuspend_matching_entries(entries, index))
        },
        Err(error) => Err(
            SweepResult {
                suspended: Vec::new(),
                skipped: unavailable("external engine re-suspend unavailable: ", error.as_str()),
            },
        ),
    }
}

/// The entries whose processes are still running, and what is said of the others. `processes`
/// is what listing them came to.
pub fn live_entries(
    entries: &Vec<SuspendedExternalEngine>,
    processes: Result<Vec<ProcessInfo>, String>,
) -> (r: (Vec<SuspendedExternalEngine>, Vec<String>))
    ensures
        match processes {
            Ok(running) => r.0@ == distinct_entries(running_entries(entries@, by_pid(running@)))
                && text_views(r.1@) == stale_remarks(entries@, by_pid(running@)),
            Err(error) => r.0@.len() == 0 && text_views(r.1@)
                == seq!["external engine identity check unavailable: "@ + error@],
        },
{
    match processes {
        Ok(running) => {
            let index = index_processes(&running);
            matching_entries(entries, &index)
        },
        Err(error) => (
            Vec::new(),
            unavailable("external engine identity check unavailable: ", error.as_str()),
        ),
    }
}

/// A pass touches the processes of exactly the entries that are still running under the id that
/// was kept, in their order and each once: one whose id was used again is never touched. What the
/// attempts come to makes no difference.
pub proof fn reused_ids_are_never_touched(run: PassRun)
    ensures
        run.end().attempts == running_entries(run.entries, run.processes).map_values(
            |entry: SuspendedExternalEngine| entry.pid,
        ),
    decreases run.entries.len(),
{
    let keep = |entry: SuspendedExternalEngine| is_running(run.processes, entry);
    let pid = |entry: SuspendedExternalEngine| entry.pid;
    reveal(Seq::filter);
    if run.entries.len() > 0 {
        let rest = PassRun { entries: run.entries.drop_last(), ..run };
        reused_ids_are_never_touched(rest);
        let before = run.entries.drop_last().filter(keep);
        let entry = run.entries.last();
        if is_running(run.processes, entry) {
            assert(run.entries.filter(keep) == before.push(entry));
            assert(run.entries.filter(keep).map_values(pid) =~= before.map_values(pid).push(
                entry.pid,
            ));
        }
    } else {
        assert(run.entries.filter(keep).map_values(pid) =~= Seq::<u32>::empty());
    }
}

/// A pass accounts for each entry: it is done, or a remark says why not.
pub proof fn each_entry_is_done_or_remarked_on(run: PassRun)
    ensures
        run.end().done.len() + run.end().skipped.len() == run.entries.len(),
    decreases run.entries.len(),
{
    if run.entries.len() > 0 {
        each_entry_is_done_or_remarked_on(PassRun { entries: run.entries.drop_last(), ..run });
    }
}

/// Where every attempt of a pass succeeds, exactly the entries that are still running are done,
/// unchanged.
pub proof fn what_runs_is_done(run: PassRun)
    requires
        run.outcomes.len() >= run.end().attempts.len(),
        forall|i: int| 0 <= i < run.outcomes.len() ==> (#[trigger] run.outcomes[i]) is Ok,
    ensures
        run.end().done == running_entries(run.entries, run.processes),
    decreases run.entries.len(),
{
    reveal(Seq::filter);
    if run.entries.len() > 0 {
        what_runs_is_done(PassRun { entries: run.entries.drop_last(), ..run });
    } else {
        assert(run.end().done =~= running_entries(run.entries, run.processes));
    }
}

/// Merging keeps every identity of both lists, and each once.
pub proof fn merging_keeps_each_identity_once(entries: Seq<SuspendedExternalEngine>)
    ensures
        forall|i: int, j: int|
            0 <= i < j < distinct_entries(entries).len() ==> identity(
                #[trigger] distinct_entries(entries)[i],
            ) != identity(#[trigger] distinct_entries(entries)[j]),
        forall|id: (u32, u64)| #[trigger]
            has_entry(distinct_entries(entries), id) <==> has_entry(entries, id),
    decreases entries.len(),
{
    if entries.len() > 0 {
        let rest = entries.drop_last();
        let before = distinct_entries(rest);
        let after = distinct_entries(entries);
        merging_keeps_each_identity_once(rest);
        assert forall|i: int, j: int| 0 <= i < j < after.len() implies identity(
            #[trigger] after[i],
        ) != identity(#[trigger] after[j]) by {
            assert(after[i] == before[i]);
            if j < before.len() {
                assert(after[j] == before[j]);
            } else {
                assert(!has_entry(before, identity(entries.last())));
            }
        }
        assert forall|id: (u32, u64)| #[trigger] has_entry(after, id) <==> has_entry(entries, id) by {
            if has_entry(after, id) {
                let i = choose|i: int| 0 <= i < after.len() && identity(#[trigger] after[i]) == id;
                if i < before.len() {
                    assert(identity(before[i]) == id);
                    assert(has_entry(before, id));
                    assert(has_entry(rest, id));
                    let k = choose|k: int| 0 <= k < rest.len() && identity(#[trigger] rest[k]) == id;
                    assert(identity(entries[k]) == id);
                } else {
                    assert(identity(entries[entries.len() - 1]) == id);
                }
            }
            if has_entry(entries, id) {
                let k = choose|k: int| 0 <= k < entries.len() && identity(#[trigger] entries[k]) == id;
                if k < rest.len() {
                    assert(identity(rest[k]) == id);
                    assert(has_entry(rest, id));
                    assert(has_entry(before, id));
                }
                if has_entry(before, id) {
                    let i = choose|i: int|
                        0 <= i < before.len() && identity(#[trigger] before[i]) == id;
                    assert(identity(after[i]) == id);
                } else {
                    assert(identity(after[before.len() as int]) == id);
                }
            }
        }
    }
}

/// What was resumed is not among what remains.
pub proof fn resumed_entries_do_not_remain(
    known: Seq<SuspendedExternalEngine>,
    live: Seq<SuspendedExternalEngine>,
    resumed: Seq<SuspendedExternalEngine>,
    id: (u32, u64),
)
    requires
        has_entry(resumed, id),
    ensures
        !has_entry(distinct_entries(known.filter(remains(live, resumed))), id),
{
    let kept = known.filter(remains(live, resumed));
    merging_keeps_each_identity_once(kept);
    if has_entry(kept, id) {
        let i = choose|i: int| 0 <= i < kept.len() && identity(#[trigger] kept[i]) == id;
        known.lemma_filter_pred(remains(live, resumed), i);
    }
}

} // verus!
