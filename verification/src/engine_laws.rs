//! Which processes are engines, what is done to them, and where the program is looked for, stated
//! on names, numbers and attempts.

use crate::codex::{
    codex_program, installation, merged, search_extras, windows_extras, SearchSurroundings,
    VersionCheck,
};
use crate::collections::text_views;
use crate::external_suspend::{
    by_pid, descends, distinct_entries, engine_image, has_entry, identity, image_of, is_child,
    is_running, leads_to, merging_keeps_each_identity_once, own_program, passed, pid_in,
    process_in_line, processes_in_lines, remains, stable_hash, stale_remarks, swept, target_name,
    ProcessInfo, ProcessView, SweepRules,
};
use crate::model::{text_view, SuspendedExternalEngine};
use crate::paths::{directory_of, file_name_of, same_path, trimmed_path, PathStyle};
use crate::text::{decimal, ends_with, lowercase, spaced, split_on, trimmed, unsigned_value, words};
use crate::text_laws::{a_separator_begins_a_new_piece, numbers_in_digits_are_read_back};
use vstd::prelude::*;
use vstd::utf8::*;

verus! {

/// A program is known by the name of its file, in small letters; where the path names no file, by
/// the path.
pub proof fn a_program_is_known_by_its_file(style: PathStyle, path: Seq<char>)
    ensures
        file_name_of(style, path) is Some ==> image_of(style, path) == lowercase(
            file_name_of(style, path)->0,
        ),
        file_name_of(style, path) is None ==> image_of(style, path) == lowercase(path),
{
}

/// Engines are named `codex`, or `codex-` and the name of a target; on Windows with `.exe` behind.
/// No other name is an engine's.
pub proof fn engines_are_named_for_their_target(image: Seq<char>, target: Seq<char>)
    requires
        !ends_with(target, ".exe"@),
        !ends_with("codex-"@ + target, ".exe"@),
    ensures
        engine_image("codex"@),
        engine_image("codex.exe"@),
        engine_image("codex-"@ + target) == target_name(target),
        engine_image("codex-"@ + target + ".exe"@) == target_name(target),
        engine_image(image) ==> image.len() >= 5 && image.take(5) == "codex"@,
{
    reveal_strlit("codex");
    reveal_strlit("codex.exe");
    reveal_strlit("codex-");
    reveal_strlit(".exe");
    let bare = "codex-"@ + target;
    assert(bare[5] == '-');
    assert(bare != "codex"@);
    assert(bare != "codex.exe"@) by {
        assert("codex.exe"@[5] == '.');
    }
    assert(bare.subrange(0, 6) == "codex-"@);
    assert(bare.skip(6) == target);
    let named = bare + ".exe"@;
    assert(named[5] == '-');
    assert(named.len() >= 10 && "codex"@.len() == 5);
    assert(named != "codex.exe"@) by {
        assert("codex.exe"@[5] == '.');
    }
    assert(named.skip(named.len() - 4) == ".exe"@);
    assert(ends_with(named, ".exe"@));
    assert(named.take(named.len() - 4) == bare);
    assert(crate::external_suspend::bare_name(named) == bare);
    assert(crate::external_suspend::bare_name(bare) == bare);
    if engine_image(image) {
        if image == "codex"@ {
            assert(image.take(5) == "codex"@);
        } else if image == "codex.exe"@ {
            assert(image.take(5) == "codex"@);
        } else {
            let name = crate::external_suspend::bare_name(image);
            assert(name.subrange(0, 6) == "codex-"@);
            assert(image.len() >= name.len());
            assert forall|i: int| 0 <= i < 5 implies image.take(5)[i] == "codex"@[i] by {
                assert(image[i] == name[i]);
                assert(name[i] == name.subrange(0, 6)[i]);
            }
            assert(image.take(5) == "codex"@);
        }
    }
}

/// Whether the text is made of letters, digits and underscores alone.
pub open spec fn lettered(part: Seq<char>) -> bool {
    part.len() > 0 && forall|i: int|
        0 <= i < part.len() ==> {
            let c = #[trigger] part[i];
            'a' <= c <= 'z' || 'A' <= c <= 'Z' || '0' <= c <= '9' || c == '_'
        }
}

proof fn lemma_split_behind(s: Seq<char>, part: Seq<char>)
    requires
        !part.contains('-'),
    ensures
        ({
            let before = split_on(s, '-');
            let after = split_on(s + part, '-');
            &&& before.len() > 0
            &&& after.len() == before.len()
            &&& after.drop_last() == before.drop_last()
            &&& after.last() == before.last() + part
        }),
    decreases part.len(),
{
    let before = split_on(s, '-');
    if part.len() == 0 {
        assert(s + part == s);
        a_separator_begins_a_new_piece(s, '-', 'a');
        assert(before.last() + part == before.last());
    } else {
        let start = part.drop_last();
        assert(!start.contains('-')) by {
            if start.contains('-') {
                let k = choose|k: int| 0 <= k < start.len() && start[k] == '-';
                assert(part[k] == '-');
            }
        }
        lemma_split_behind(s, start);
        assert(part[part.len() - 1] == part.last());
        assert((s + start).push(part.last()) == s + part);
        a_separator_begins_a_new_piece(s + start, '-', part.last());
        assert(before.last() + start.push(part.last()) == (before.last() + start).push(
            part.last(),
        ));
        assert(start.push(part.last()) == part);
    }
}

proof fn lemma_split_in_three(a: Seq<char>, b: Seq<char>, c: Seq<char>)
    requires
        !a.contains('-'),
        !b.contains('-'),
        !c.contains('-'),
    ensures
        split_on(a + seq!['-'] + b, '-') == seq![a, b],
        split_on(a + seq!['-'] + b + seq!['-'] + c, '-') == seq![a, b, c],
{
    let none = Seq::<char>::empty();
    assert(none + a == a);
    a_separator_begins_a_new_piece(none, '-', '-');
    lemma_split_behind(none, a);
    assert(split_on(a, '-') == seq![a]);
    let one = a.push('-');
    assert(one == a + seq!['-']);
    a_separator_begins_a_new_piece(a, '-', '-');
    lemma_split_behind(one, b);
    assert(none + b == b);
    let two = one + b;
    assert(split_on(two, '-') == seq![a, b]) by {
        assert(split_on(one, '-') == seq![a, none]);
        let after = split_on(two, '-');
        assert(after.drop_last() == seq![a]);
        assert(after == after.drop_last().push(after.last()));
    }
    a_separator_begins_a_new_piece(two, '-', '-');
    assert(two.push('-') == a + seq!['-'] + b + seq!['-']);
    lemma_split_behind(two.push('-'), c);
    assert(none + c == c);
    assert(split_on(two.push('-'), '-') == seq![a, b, none]);
    let last = split_on(two.push('-') + c, '-');
    assert(last.drop_last() == seq![a, b]);
    assert(last == last.drop_last().push(last.last()));
}

proof fn lemma_lettered(part: Seq<char>)
    requires
        lettered(part),
    ensures
        !part.contains('-'),
        crate::external_suspend::target_part(part),
{
    if part.contains('-') {
        let k = choose|k: int| 0 <= k < part.len() && part[k] == '-';
        assert(part[k] == '-');
    }
}

/// The name of a target has three parts of letters, digits and underscores or more, with hyphens
/// between them, one of which names a system: `windows`, `linux` or `darwin`. Two are too few.
pub proof fn a_target_names_a_system(a: Seq<char>, b: Seq<char>, c: Seq<char>)
    requires
        lettered(a),
        lettered(b),
        lettered(c),
    ensures
        ({
            let system = |part: Seq<char>|
                part == "windows"@ || part == "linux"@ || part == "darwin"@;
            &&& target_name(a + seq!['-'] + b + seq!['-'] + c) <==> system(a) || system(b)
                || system(c)
            &&& !target_name(a + seq!['-'] + b)
            &&& !target_name(a + seq!['-'] + b + seq!['-'] + Seq::<char>::empty())
        }),
{
    lemma_lettered(a);
    lemma_lettered(b);
    lemma_lettered(c);
    lemma_split_in_three(a, b, c);
    lemma_split_in_three(a, b, Seq::<char>::empty());
    let parts = seq![a, b, c];
    assert(parts[0] == a && parts[1] == b && parts[2] == c);
    let blank = seq![a, b, Seq::<char>::empty()];
    assert(!crate::external_suspend::target_part(blank[2]));
}

/// The limiter's own programs are spared under each name, whatever its letters.
pub proof fn own_programs_are_known_by_name(style: PathStyle, path: Seq<char>)
    ensures
        ({
            let image = image_of(style, path);
            own_program(style, path) <==> (image == "codex-usage-limiter"@ || image
                == "codex-usage-limiter"@ + ".exe"@ || image == "codex-code-mode-host"@ || image
                == "codex-code-mode-host"@ + ".exe"@)
        }),
{
    reveal_strlit("codex-usage-limiter");
    reveal_strlit("codex-code-mode-host");
    reveal_strlit(".exe");
    let image = image_of(style, path);
    let limiter = "codex-usage-limiter"@;
    let host = "codex-code-mode-host"@;
    assert(limiter[limiter.len() - 1] == 'r');
    assert(host[host.len() - 1] == 't');
    if ends_with(image, ".exe"@) {
        assert(image.skip(image.len() - 4)[3] == image[image.len() - 1]);
        assert(image.last() == 'e');
        assert(image == image.take(image.len() - 4) + ".exe"@) by {
            assert(image == image.take(image.len() - 4) + image.skip(image.len() - 4));
        }
        if image == limiter + ".exe"@ {
            assert(image.take(image.len() - 4) == limiter);
        }
        if image == host + ".exe"@ {
            assert(image.take(image.len() - 4) == host);
        }
    } else {
        if image == limiter + ".exe"@ {
            assert(image.skip(image.len() - 4) == ".exe"@);
        }
        if image == host + ".exe"@ {
            assert(image.skip(image.len() - 4) == ".exe"@);
        }
    }
}

/// The time a process started at is kept as a number that every byte of its text goes into.
pub proof fn every_byte_goes_into_the_hash(bytes: Seq<u8>, byte: u8)
    ensures
        stable_hash(Seq::<u8>::empty()) == 14695981039346656037u64,
        stable_hash(bytes.push(byte)) == (stable_hash(bytes) ^ (byte as u64)).wrapping_mul(
            1099511628211u64,
        ),
{
    assert(bytes.push(byte).drop_last() == bytes);
}

/// A line of the process table gives the number of the process, that of its parent, when it
/// started, in five words, and its program, which may hold spaces. A shorter line gives nothing.
pub proof fn a_line_describes_a_process(
    line: Seq<char>,
    pid: u32,
    parent_pid: u32,
    start: Seq<Seq<char>>,
    program: Seq<Seq<char>>,
)
    requires
        start.len() == 5,
        program.len() > 0,
    ensures
        words(line) == seq![decimal(pid as nat), decimal(parent_pid as nat)] + start + program
            ==> process_in_line(line) == Some(
            ProcessView {
                pid,
                parent_pid,
                start_time: stable_hash(encode_utf8(spaced(start))),
                image_path: spaced(program),
            },
        ),
        words(line).len() < 8 ==> process_in_line(line) is None,
        pid_in(decimal(pid as nat)) == Some(pid),
{
    lemma_pid(pid);
    lemma_pid(parent_pid);
    let fields = seq![decimal(pid as nat), decimal(parent_pid as nat)] + start + program;
    assert(fields[0] == decimal(pid as nat));
    assert(fields[1] == decimal(parent_pid as nat));
    assert(fields.subrange(2, 7) == start);
    assert(fields.subrange(7, fields.len() as int) == program);
}

proof fn lemma_pid(pid: u32)
    ensures
        pid_in(decimal(pid as nat)) == Some(pid),
{
    numbers_in_digits_are_read_back(pid as nat);
    assert('0' <= decimal(pid as nat)[0]);
    assert(unsigned_value(decimal(pid as nat)) == Some(pid as nat));
}

/// A number that is too great for a process is none.
pub proof fn great_numbers_are_no_processes(n: nat)
    requires
        n > 0xffff_ffff,
    ensures
        pid_in(decimal(n)) is None,
{
    numbers_in_digits_are_read_back(n);
    assert('0' <= decimal(n)[0]);
}

/// The processes of a table are those of its lines, in order; a line that describes none is passed
/// over.
pub proof fn a_table_is_read_line_by_line(lines: Seq<Seq<char>>, line: Seq<char>)
    ensures
        processes_in_lines(Seq::<Seq<char>>::empty()).len() == 0,
        process_in_line(line) is Some ==> processes_in_lines(lines.push(line))
            == processes_in_lines(lines).push(process_in_line(line)->0),
        process_in_line(line) is None ==> processes_in_lines(lines.push(line))
            == processes_in_lines(lines),
{
    assert(lines.push(line).drop_last() == lines);
}

/// A process descends from the roots where it is one of them, or where its parent does; and only
/// there.
pub proof fn a_process_descends_through_its_parents(
    processes: Seq<ProcessInfo>,
    roots: Seq<u32>,
    pid: u32,
)
    ensures
        roots.contains(pid) ==> descends(processes, roots, pid),
        forall|parent_pid: u32, k: int|
            0 <= k < processes.len() && (#[trigger] processes[k]).pid == pid
                && processes[k].parent_pid == parent_pid && #[trigger] descends(
                processes,
                roots,
                parent_pid,
            ) ==> descends(processes, roots, pid),
        descends(processes, roots, pid) && !roots.contains(pid) ==> exists|k: int|
            0 <= k < processes.len() && (#[trigger] processes[k]).pid == pid && descends(
                processes,
                roots,
                processes[k].parent_pid,
            ),
{
    if roots.contains(pid) {
        let chain = seq![pid];
        assert(chain[0] == pid);
        assert(leads_to(processes, roots, chain, pid));
    }
    assert forall|parent_pid: u32, k: int|
        0 <= k < processes.len() && (#[trigger] processes[k]).pid == pid && processes[k].parent_pid
            == parent_pid && #[trigger] descends(processes, roots, parent_pid) implies descends(
        processes,
        roots,
        pid,
    ) by {
        let chain = choose|chain: Seq<u32>| leads_to(processes, roots, chain, parent_pid);
        let longer = chain.push(pid);
        assert(longer[0] == chain[0]);
        assert forall|i: int| #![trigger longer[i]] 1 <= i < longer.len() implies is_child(
            processes,
            longer[i - 1],
            longer[i],
        ) by {
            if i < chain.len() {
                assert(is_child(processes, chain[i - 1], chain[i]));
            }
        }
        assert(leads_to(processes, roots, longer, pid));
    }
    if descends(processes, roots, pid) && !roots.contains(pid) {
        let chain = choose|chain: Seq<u32>| leads_to(processes, roots, chain, pid);
        assert(chain.len() > 1);
        let parent_pid = chain[chain.len() - 2];
        assert(is_child(processes, parent_pid, chain[chain.len() - 1]));
        let shorter = chain.drop_last();
        assert forall|i: int| #![trigger shorter[i]] 1 <= i < shorter.len() implies is_child(
            processes,
            shorter[i - 1],
            shorter[i],
        ) by {
            assert(is_child(processes, chain[i - 1], chain[i]));
        }
        assert(leads_to(processes, roots, shorter, parent_pid));
    }
}

/// A sweep spares the limiter's own processes, its own programs, and the program that runs, however
/// its letters are written; and nothing else.
pub proof fn a_sweep_spares_its_own(rules: SweepRules, process: ProcessInfo)
    ensures
        rules.own.contains(process.pid) ==> rules.spares(process),
        own_program(rules.style, process.image_path@) ==> rules.spares(process),
        rules.current_image is Some && lowercase(rules.current_image->0) == lowercase(
            process.image_path@,
        ) ==> rules.spares(process),
        !rules.own.contains(process.pid) && !own_program(rules.style, process.image_path@) && (
        rules.current_image is None || lowercase(rules.current_image->0) != lowercase(
            process.image_path@,
        )) ==> !rules.spares(process),
{
}

/// A sweep goes on with one further process: it passes over what is no engine, remarks on an engine
/// that it spares, leaves alone what is suspended, and tries to suspend any other engine. One that
/// is suspended is kept with its number, its start and the time; one that is not is remarked on
/// with the reason.
pub proof fn a_further_process_is_swept(
    processes: Seq<ProcessInfo>,
    process: ProcessInfo,
    rules: SweepRules,
    already: Seq<(u32, u64)>,
    now_ms: i64,
    outcomes: Seq<Result<(), String>>,
)
    ensures
        ({
            let before = swept(processes, rules, already, now_ms, outcomes);
            let after = swept(processes.push(process), rules, already, now_ms, outcomes);
            let engine = engine_image(image_of(rules.style, process.image_path@));
            let id = (process.pid, process.start_time);
            let named = process.image_path@ + " ("@ + decimal(process.pid as nat) + ")"@;
            let outcome = outcomes[before.attempts.len() as int];
            let fresh = engine && !rules.spares(process) && !before.held.contains(id);
            &&& !engine ==> after == before
            &&& engine && rules.spares(process) ==> after.suspended == before.suspended
                && after.attempts == before.attempts && after.held == before.held && after.skipped
                == before.skipped.push("skipped own/bundle engine "@ + named)
            &&& engine && !rules.spares(process) && before.held.contains(id) ==> after == before
            &&& fresh ==> after.attempts == before.attempts.push(process.pid)
            &&& fresh && outcome is Ok ==> after.held == before.held.push(id) && after.skipped
                == before.skipped && after.suspended == before.suspended.push(
                SuspendedExternalEngine {
                    pid: process.pid,
                    process_start_time: process.start_time,
                    image_path: process.image_path,
                    suspended_at: now_ms,
                },
            )
            &&& fresh && outcome is Err ==> after.held == before.held && after.suspended
                == before.suspended && after.skipped == before.skipped.push(
                "skipped "@ + named + ": "@ + outcome->Err_0@,
            )
        }),
{
    assert(processes.push(process).drop_last() == processes);
    let named = process.image_path@ + " ("@ + decimal(process.pid as nat) + ")"@;
    assert("skipped "@ + process.image_path@ + " ("@ + decimal(process.pid as nat) + ")"@
        == "skipped "@ + named);
    assert("skipped own/bundle engine "@ + process.image_path@ + " ("@ + decimal(
        process.pid as nat,
    ) + ")"@ == "skipped own/bundle engine "@ + named);
}

/// A suspended engine still runs where a process of its number started when it did.
pub proof fn an_engine_runs_where_number_and_start_agree(
    processes: Map<u32, ProcessInfo>,
    entry: SuspendedExternalEngine,
)
    ensures
        !processes.dom().contains(entry.pid) ==> !is_running(processes, entry),
        processes.dom().contains(entry.pid) ==> (is_running(processes, entry)
            <==> processes[entry.pid].start_time == entry.process_start_time),
{
}

/// A pass over suspended engines goes on with one further entry: one whose process is gone, or is
/// another by now, is dropped with a remark; any other is tried, and is done, or remarked on with
/// the reason.
pub proof fn a_further_entry_is_passed_over(
    entries: Seq<SuspendedExternalEngine>,
    entry: SuspendedExternalEngine,
    processes: Map<u32, ProcessInfo>,
    failure: Seq<char>,
    outcomes: Seq<Result<(), String>>,
)
    ensures
        ({
            let before = passed(entries, processes, failure, outcomes);
            let after = passed(entries.push(entry), processes, failure, outcomes);
            let gone = !processes.dom().contains(entry.pid);
            let other = !gone && processes[entry.pid].start_time != entry.process_start_time;
            let named = entry.image_path@ + " ("@ + decimal(entry.pid as nat) + ")"@;
            let outcome = outcomes[before.attempts.len() as int];
            let tried = !gone && !other;
            &&& gone ==> after.done == before.done && after.attempts == before.attempts
                && after.skipped == before.skipped.push("dropped exited engine "@ + named)
            &&& other ==> after.done == before.done && after.attempts == before.attempts
                && after.skipped == before.skipped.push("dropped PID-reused engine "@ + named)
            &&& tried ==> after.attempts == before.attempts.push(entry.pid)
            &&& tried && outcome is Ok ==> after.done == before.done.push(entry) && after.skipped
                == before.skipped
            &&& tried && outcome is Err ==> after.done == before.done && after.skipped
                == before.skipped.push(failure + named + ": "@ + outcome->Err_0@)
        }),
{
    assert(entries.push(entry).drop_last() == entries);
    let named = entry.image_path@ + " ("@ + decimal(entry.pid as nat) + ")"@;
    assert("dropped exited engine "@ + entry.image_path@ + " ("@ + decimal(entry.pid as nat) + ")"@
        == "dropped exited engine "@ + named);
    assert("dropped PID-reused engine "@ + entry.image_path@ + " ("@ + decimal(entry.pid as nat)
        + ")"@ == "dropped PID-reused engine "@ + named);
    assert(failure + entry.image_path@ + " ("@ + decimal(entry.pid as nat) + ")"@ == failure
        + named);
}

/// Each entry that no longer runs is remarked on once, in order.
pub proof fn stale_entries_are_remarked_on(
    entries: Seq<SuspendedExternalEngine>,
    entry: SuspendedExternalEngine,
    processes: Map<u32, ProcessInfo>,
)
    ensures
        ({
            let before = stale_remarks(entries, processes);
            let after = stale_remarks(entries.push(entry), processes);
            let named = entry.image_path@ + " ("@ + decimal(entry.pid as nat) + ")"@;
            let runs = processes.dom().contains(entry.pid) && processes[entry.pid].start_time
                == entry.process_start_time;
            &&& stale_remarks(Seq::<SuspendedExternalEngine>::empty(), processes).len() == 0
            &&& runs ==> after == before
            &&& !runs ==> after == before.push("dropped stale suspended engine "@ + named)
        }),
{
    assert(entries.push(entry).drop_last() == entries);
    let named = entry.image_path@ + " ("@ + decimal(entry.pid as nat) + ")"@;
    assert("dropped stale suspended engine "@ + entry.image_path@ + " ("@ + decimal(
        entry.pid as nat,
    ) + ")"@ == "dropped stale suspended engine "@ + named);
}

/// A process is found by its number; of several with one number the last is.
pub proof fn a_process_is_found_by_its_number(
    processes: Seq<ProcessInfo>,
    process: ProcessInfo,
    pid: u32,
)
    ensures
        by_pid(Seq::<ProcessInfo>::empty()).dom().is_empty(),
        by_pid(processes.push(process)).dom().contains(process.pid),
        by_pid(processes.push(process))[process.pid] == process,
        pid != process.pid ==> (by_pid(processes.push(process)).dom().contains(pid) <==> by_pid(
            processes,
        ).dom().contains(pid)),
        pid != process.pid && by_pid(processes).dom().contains(pid) ==> by_pid(
            processes.push(process),
        )[pid] == by_pid(processes)[pid],
{
    assert(processes.push(process).drop_last() == processes);
}

/// Of the entries with one number and start the first is kept.
pub proof fn the_first_entry_of_an_identity_is_kept(
    entries: Seq<SuspendedExternalEngine>,
    entry: SuspendedExternalEngine,
)
    ensures
        ({
            let known = exists|i: int|
                0 <= i < entries.len() && (#[trigger] entries[i]).pid == entry.pid
                    && entries[i].process_start_time == entry.process_start_time;
            &&& known ==> distinct_entries(entries.push(entry)) == distinct_entries(entries)
            &&& !known ==> distinct_entries(entries.push(entry)) == distinct_entries(
                entries,
            ).push(entry)
        }),
{
    assert(entries.push(entry).drop_last() == entries);
    merging_keeps_each_identity_once(entries);
    let id = identity(entry);
    assert(has_entry(distinct_entries(entries), id) <==> has_entry(entries, id));
    if has_entry(entries, id) {
        let i = choose|i: int| 0 <= i < entries.len() && identity(#[trigger] entries[i]) == id;
        assert(entries[i].pid == entry.pid && entries[i].process_start_time
            == entry.process_start_time);
    }
    if exists|i: int|
        0 <= i < entries.len() && (#[trigger] entries[i]).pid == entry.pid
            && entries[i].process_start_time == entry.process_start_time {
        let i = choose|i: int|
            0 <= i < entries.len() && (#[trigger] entries[i]).pid == entry.pid
                && entries[i].process_start_time == entry.process_start_time;
        assert(identity(entries[i]) == id);
    }
}

/// An entry remains where its engine lives and has not been resumed.
pub proof fn entries_remain_while_their_engines_are_suspended(
    live: Seq<SuspendedExternalEngine>,
    resumed: Seq<SuspendedExternalEngine>,
    entry: SuspendedExternalEngine,
)
    ensures
        ({
            let listed = |entries: Seq<SuspendedExternalEngine>|
                exists|i: int|
                    0 <= i < entries.len() && (#[trigger] entries[i]).pid == entry.pid
                        && entries[i].process_start_time == entry.process_start_time;
            remains(live, resumed)(entry) <==> listed(live) && !listed(resumed)
        }),
{
    lemma_listed(live, entry);
    lemma_listed(resumed, entry);
}

proof fn lemma_listed(entries: Seq<SuspendedExternalEngine>, entry: SuspendedExternalEngine)
    ensures
        has_entry(entries, identity(entry)) <==> exists|i: int|
            0 <= i < entries.len() && (#[trigger] entries[i]).pid == entry.pid
                && entries[i].process_start_time == entry.process_start_time,
{
    if has_entry(entries, identity(entry)) {
        let i = choose|i: int|
            0 <= i < entries.len() && identity(#[trigger] entries[i]) == identity(entry);
        assert(entries[i].pid == entry.pid);
    }
    if exists|i: int|
        0 <= i < entries.len() && (#[trigger] entries[i]).pid == entry.pid
            && entries[i].process_start_time == entry.process_start_time {
        let i = choose|i: int|
            0 <= i < entries.len() && (#[trigger] entries[i]).pid == entry.pid
                && entries[i].process_start_time == entry.process_start_time;
        assert(identity(entries[i]) == identity(entry));
    }
}

/// The program is what is configured, without the white space around it; where that is blank or
/// nothing is, it is `codex`.
pub proof fn the_program_is_what_is_configured(bin: Seq<char>)
    ensures
        trimmed(bin).len() > 0 ==> codex_program(Some(bin)) == trimmed(bin),
        trimmed(bin).len() == 0 ==> codex_program(Some(bin)) == "codex"@,
        codex_program(None) == "codex"@,
{
}

/// A program that runs tells its version, if any; one that does not tells why: from what it wrote
/// about errors, or else from what it wrote at all.
pub proof fn a_version_check_tells_what_happened(error: String, stdout: String, stderr: String)
    ensures
        ({
            let ran = VersionCheck::Exited { success: true, stdout, stderr };
            let failed = VersionCheck::Exited { success: false, stdout, stderr };
            let told = |detail: Seq<char>|
                Err::<Option<Seq<char>>, Seq<char>>(
                    "Codex CLI failed to start: "@ + detail
                        + ". Try running `codex --version` in Terminal."@,
                );
            let out = trimmed(stdout@);
            let err = trimmed(stderr@);
            &&& out.len() > 0 ==> installation(ran) == Ok::<Option<Seq<char>>, Seq<char>>(Some(out))
            &&& out.len() == 0 ==> installation(ran) == Ok::<Option<Seq<char>>, Seq<char>>(None)
            &&& err.len() > 0 ==> installation(failed) == told(err)
            &&& err.len() == 0 && out.len() > 0 ==> installation(failed) == told(out)
            &&& err.len() == 0 && out.len() == 0 ==> installation(failed) == Err::<
                Option<Seq<char>>,
                Seq<char>,
            >("Codex CLI failed to start. Try running `codex --version` in Terminal."@)
            &&& installation(VersionCheck::NotFound) == Err::<Option<Seq<char>>, Seq<char>>(
                "Codex CLI not found. Install Codex and ensure `codex` is on your PATH."@,
            )
            &&& installation(VersionCheck::TimedOut) == Err::<Option<Seq<char>>, Seq<char>>(
                "Timed out while checking Codex CLI. Make sure `codex --version` runs in Terminal."@,
            )
            &&& installation(VersionCheck::SpawnFailed { error }) == Err::<
                Option<Seq<char>>,
                Seq<char>,
            >(error@)
        }),
{
}

/// Merging adds each further directory that is not there yet, and no other.
pub proof fn merging_adds_what_is_missing(
    style: PathStyle,
    paths: Seq<Seq<char>>,
    extras: Seq<Seq<char>>,
    extra: Seq<char>,
)
    ensures
        ({
            let before = merged(style, paths, extras);
            let after = merged(style, paths, extras.push(extra));
            let known = exists|i: int|
                0 <= i < before.len() && same_path(style, #[trigger] before[i], extra);
            &&& merged(style, paths, Seq::<Seq<char>>::empty()) == paths
            &&& known ==> after == before
            &&& !known ==> after == before.push(extra)
        }),
{
    assert(extras.push(extra).drop_last() == extras);
}

/// Programs are also looked for in the directories of the system and of the user's tools, then
/// where Node keeps its own, and last in the directory of the configured program.
pub proof fn tools_are_looked_for_in_the_home(
    surroundings: SearchSurroundings,
    home: Seq<char>,
    bin: Seq<char>,
)
    requires
        text_view(surroundings.home) == Some(home),
        home.len() > 0,
        home.last() != '/',
        trimmed(bin).len() > 0,
        trimmed_path(PathStyle::Posix, bin).len() > 0,
    ensures
        search_extras(PathStyle::Posix, surroundings, Some(bin)) == seq![
            "/opt/homebrew/bin"@,
            "/usr/local/bin"@,
            "/usr/bin"@,
            "/bin"@,
            "/usr/sbin"@,
            "/sbin"@,
            home + seq!['/'] + ".local/bin"@,
            home + seq!['/'] + ".local/share/mise/shims"@,
            home + seq!['/'] + ".cargo/bin"@,
            home + seq!['/'] + ".bun/bin"@,
        ] + text_views(surroundings.node_bins@) + seq![directory_of(PathStyle::Posix, bin)],
{
    assert(home.push('/') == home + seq!['/']);
}

/// Without a home only the directories of the system are added, and without a program no more.
pub proof fn without_a_home_the_system_is_left(surroundings: SearchSurroundings)
    requires
        surroundings.home is None,
    ensures
        search_extras(PathStyle::Posix, surroundings, None) == seq![
            "/opt/homebrew/bin"@,
            "/usr/local/bin"@,
            "/usr/bin"@,
            "/bin"@,
            "/usr/sbin"@,
            "/sbin"@,
        ],
{
}

/// On Windows programs are also looked for where npm, the system, cargo, scoop and chocolatey put
/// them.
pub proof fn tools_are_looked_for_on_windows(
    app_data: Seq<char>,
    local_app_data: Seq<char>,
    home: Seq<char>,
    program_data: Seq<char>,
)
    requires
        app_data.len() > 0 && app_data.last() != '/' && app_data.last() != '\\',
        local_app_data.len() > 0 && local_app_data.last() != '/' && local_app_data.last() != '\\',
        home.len() > 0 && home.last() != '/' && home.last() != '\\',
        program_data.len() > 0 && program_data.last() != '/' && program_data.last() != '\\',
    ensures
        windows_extras(Some(app_data), Some(local_app_data), Some(home), Some(program_data))
            == seq![
            app_data + "\\npm"@,
            local_app_data + "\\Microsoft\\WindowsApps"@,
            home + "\\.cargo\\bin"@,
            home + "\\scoop\\shims"@,
            program_data + "\\chocolatey\\bin"@,
        ],
        windows_extras(None, None, None, None).len() == 0,
{
    reveal_strlit("npm");
    reveal_strlit("\\npm");
    reveal_strlit("Microsoft");
    reveal_strlit("WindowsApps");
    reveal_strlit("\\Microsoft\\WindowsApps");
    reveal_strlit(".cargo");
    reveal_strlit("bin");
    reveal_strlit("\\.cargo\\bin");
    reveal_strlit("scoop");
    reveal_strlit("shims");
    reveal_strlit("\\scoop\\shims");
    reveal_strlit("chocolatey");
    reveal_strlit("\\chocolatey\\bin");
    assert(app_data.push('\\') + "npm"@ == app_data + "\\npm"@);
    let system = local_app_data.push('\\') + "Microsoft"@;
    assert(system.last() == 't');
    assert(system.push('\\') + "WindowsApps"@ == local_app_data + "\\Microsoft\\WindowsApps"@);
    let cargo = home.push('\\') + ".cargo"@;
    assert(cargo.last() == 'o');
    assert(cargo.push('\\') + "bin"@ == home + "\\.cargo\\bin"@);
    let scoop = home.push('\\') + "scoop"@;
    assert(scoop.last() == 'p');
    assert(scoop.push('\\') + "shims"@ == home + "\\scoop\\shims"@);
    let choco = program_data.push('\\') + "chocolatey"@;
    assert(choco.last() == 'y');
    assert(choco.push('\\') + "bin"@ == program_data + "\\chocolatey\\bin"@);
}

} // verus!
