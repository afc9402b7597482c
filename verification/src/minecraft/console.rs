//! What the game prints, kept per instance for the developer console.
//!
//! The history of each instance holds its latest lines, at most
//! `CONSOLE_HISTORY_LIMIT` of them; an older line leaves when a new one
//! comes and the history is full.
use vstd::prelude::*;

use crate::text::{str_eq, str_to_string};

verus! {

/// How many lines the history of one instance keeps.
pub const CONSOLE_HISTORY_LIMIT: usize = 3000;

#[derive(Debug, Clone, Copy, PartialEq, Eq, Structural)]
pub enum ConsoleStream {
    Stdout,
    Stderr,
    System,
}

#[derive(Debug, Clone, Copy, PartialEq, Eq, Structural)]
pub enum ConsoleProcessStatus {
    Starting,
    Started,
    Exited,
}

#[derive(Debug)]
pub struct ConsoleLine {
    pub instance_id: String,
    pub stream: ConsoleStream,
    pub line: String,
}

/// A console line as plain values: instance, stream, text.
pub type ConsoleLineView = (Seq<char>, ConsoleStream, Seq<char>);

impl View for ConsoleLine {
    type V = ConsoleLineView;

    open spec fn view(&self) -> ConsoleLineView {
        (self.instance_id@, self.stream, self.line@)
    }
}

#[derive(Debug)]
pub struct ConsoleStatus {
    pub instance_id: String,
    pub status: ConsoleProcessStatus,
    pub pid: Option<u32>,
    pub exit_code: Option<i32>,
    pub success: Option<bool>,
    pub log_path: Option<String>,
}

/// A copy of a console line.
pub fn copy_line(l: &ConsoleLine) -> (r: ConsoleLine)
    ensures
        r@ == l@,
{
    ConsoleLine { instance_id: l.instance_id.clone(), stream: l.stream, line: l.line.clone() }
}

/// The histories of all instances: an instance id with its lines, oldest first.
#[derive(Debug)]
pub struct ConsoleHistory {
    pub entries: Vec<(String, Vec<ConsoleLine>)>,
}

/// The lines kept for `id`: those of its last entry, none without one.
pub open spec fn lines_of(entries: Seq<(String, Vec<ConsoleLine>)>, id: Seq<char>) -> Seq<
    ConsoleLine,
>
    decreases entries.len(),
{
    if entries.len() == 0 {
        Seq::empty()
    } else if entries.last().0@ == id {
        entries.last().1@
    } else {
        lines_of(entries.drop_last(), id)
    }
}

/// The entries without those of `id`.
pub open spec fn entries_without(entries: Seq<(String, Vec<ConsoleLine>)>, id: Seq<char>) -> Seq<
    (String, Vec<ConsoleLine>),
>
    decreases entries.len(),
{
    if entries.len() == 0 {
        entries
    } else if entries.last().0@ == id {
        entries_without(entries.drop_last(), id)
    } else {
        entries_without(entries.drop_last(), id).push(entries.last())
    }
}

pub open spec fn line_views(s: Seq<ConsoleLine>) -> Seq<ConsoleLineView> {
    s.map_values(|l: ConsoleLine| l@)
}

/// The history of `id`, as plain values, oldest first.
pub open spec fn history_of(h: ConsoleHistory, id: Seq<char>) -> Seq<ConsoleLineView> {
    line_views(lines_of(h.entries@, id))
}

/// The latest `CONSOLE_HISTORY_LIMIT` items of `s`, in their order.
pub open spec fn kept<A>(s: Seq<A>) -> Seq<A> {
    if s.len() > CONSOLE_HISTORY_LIMIT {
        s.skip(s.len() - CONSOLE_HISTORY_LIMIT)
    } else {
        s
    }
}

proof fn lemma_kept_views(s: Seq<ConsoleLine>)
    ensures
        line_views(kept(s)) == kept(line_views(s)),
{
    assert(line_views(kept(s)) =~= kept(line_views(s)));
}

proof fn lemma_lines_of_update(s: Seq<(String, Vec<ConsoleLine>)>, i: int, e: (String, Vec<ConsoleLine>), k: Seq<char>)
    requires
        0 <= i < s.len(),
        s[i].0@ == e.0@,
        forall|j: int| i < j < s.len() ==> s[j].0@ != e.0@,
    ensures
        lines_of(s.update(i, e), k) == if k == e.0@ {
            e.1@
        } else {
            lines_of(s, k)
        },
    decreases s.len(),
{
    let u = s.update(i, e);
    if i < s.len() - 1 {
        assert(u.drop_last() =~= s.drop_last().update(i, e));
        assert(u.last() == s.last());
        lemma_lines_of_update(s.drop_last(), i, e, k);
    } else {
        assert(u.drop_last() =~= s.drop_last());
    }
}

proof fn lemma_lines_of_absent(s: Seq<(String, Vec<ConsoleLine>)>, id: Seq<char>)
    requires
        forall|j: int| 0 <= j < s.len() ==> s[j].0@ != id,
    ensures
        lines_of(s, id) == Seq::<ConsoleLine>::empty(),
    decreases s.len(),
{
    if s.len() > 0 {
        lemma_lines_of_absent(s.drop_last(), id);
    }
}

proof fn lemma_lines_of_without(s: Seq<(String, Vec<ConsoleLine>)>, id: Seq<char>, k: Seq<char>)
    ensures
        lines_of(entries_without(s, id), k) == if k == id {
            Seq::<ConsoleLine>::empty()
        } else {
            lines_of(s, k)
        },
    decreases s.len(),
{
    if s.len() > 0 {
        lemma_lines_of_without(s.drop_last(), id, k);
        let rest = entries_without(s.drop_last(), id);
        if s.last().0@ != id {
            assert(rest.push(s.last()).drop_last() =~= rest);
        }
    }
}

impl ConsoleHistory {
    /// No history for any instance.
    pub fn new() -> (h: ConsoleHistory)
        ensures
            h.entries@.len() == 0,
            forall|k: Seq<char>| #[trigger] history_of(h, k).len() == 0,
    {
        ConsoleHistory { entries: Vec::new() }
    }
}

fn last_entry_index(entries: &Vec<(String, Vec<ConsoleLine>)>, id: &str) -> (r: Option<usize>)
    ensures
        match r {
            Some(i) => i < entries.len() && entries@[i as int].0@ == id@ && (forall|j: int|
                i < j < entries.len() ==> entries@[j].0@ != id@),
            None => forall|j: int| 0 <= j < entries.len() ==> entries@[j].0@ != id@,
        },
{
    let mut i = entries.len();
    while i > 0
        invariant
            i <= entries.len(),
            forall|j: int| i <= j < entries.len() ==> entries@[j].0@ != id@,
        decreases i,
    {
        if str_eq(entries[i - 1].0.as_str(), id) {
            return Some(i - 1);
        }
        i = i - 1;
    }
    None
}

/// Keeps the latest `CONSOLE_HISTORY_LIMIT` lines of `lines`.
fn trim_front(lines: Vec<ConsoleLine>) -> (r: Vec<ConsoleLine>)
    ensures
        r@ == kept(lines@),
{
    let mut lines = lines;
    let n = lines.len();
    if n > CONSOLE_HISTORY_LIMIT {
        let tail = lines.split_off(n - CONSOLE_HISTORY_LIMIT);
        assert(tail@ =~= kept(lines@.add(tail@)));
        tail
    } else {
        lines
    }
}

/// Adds `line` to the history of its instance, dropping the oldest line of
/// that history where it would hold more than `CONSOLE_HISTORY_LIMIT`.
pub fn push_history(h: &mut ConsoleHistory, line: ConsoleLine)
    ensures
        forall|k: Seq<char>|
            #![trigger lines_of(final(h).entries@, k)]
            lines_of(final(h).entries@, k) == if k == line.instance_id@ {
                kept(lines_of(old(h).entries@, k).push(line))
            } else {
                lines_of(old(h).entries@, k)
            },
{
    let ghost id = line.instance_id@;
    let ghost before = h.entries@;
    match last_entry_index(&h.entries, line.instance_id.as_str()) {
        Some(i) => {
            let (key, mut lines) = h.entries.remove(i);
            let ghost old_lines = lines@;
            lines.push(line);
            let lines = trim_front(lines);
            let ghost e = (key, lines);
            h.entries.insert(i, (key, lines));
            proof {
                assert(h.entries@ =~= before.update(i as int, e));
                assert forall|k: Seq<char>| #![trigger lines_of(h.entries@, k)]
                    lines_of(h.entries@, k) == if k == id {
                        kept(lines_of(before, k).push(line))
                    } else {
                        lines_of(before, k)
                    } by {
                    lemma_lines_of_update(before, i as int, e, k);
                    lemma_lines_of_update(before, i as int, before[i as int], id);
                    assert(before.update(i as int, before[i as int]) =~= before);
                }
            }
        },
        None => {
            let key = str_to_string(line.instance_id.as_str());
            let mut lines: Vec<ConsoleLine> = Vec::new();
            lines.push(line);
            let ghost e = (key, lines);
            h.entries.push((key, lines));
            proof {
                assert forall|k: Seq<char>| #![trigger lines_of(h.entries@, k)]
                    lines_of(h.entries@, k) == if k == id {
                        kept(lines_of(before, k).push(line))
                    } else {
                        lines_of(before, k)
                    } by {
                    assert(h.entries@.drop_last() =~= before);
                    lemma_lines_of_absent(before, id);
                    assert(Seq::<ConsoleLine>::empty().push(line) =~= seq![line]);
                }
            }
        },
    }
}

/// The history of `instance_id`, oldest line first.
pub fn get_history(h: &ConsoleHistory, instance_id: &str) -> (r: Vec<ConsoleLine>)
    ensures
        line_views(r@) == history_of(*h, instance_id@),
{
    let mut out: Vec<ConsoleLine> = Vec::new();
    match last_entry_index(&h.entries, instance_id) {
        Some(i) => {
            proof {
                lemma_lines_of_update(h.entries@, i as int, h.entries@[i as int], instance_id@);
                assert(h.entries@.update(i as int, h.entries@[i as int]) =~= h.entries@);
            }
            let lines = &h.entries[i].1;
            let mut j: usize = 0;
            while j < lines.len()
                invariant
                    j <= lines.len(),
                    out@.len() == j,
                    line_views(out@) == line_views(lines@.take(j as int)),
                decreases lines.len() - j,
            {
                let c = copy_line(&lines[j]);
                let ghost before = out@;
                out.push(c);
                assert(line_views(out@) =~= line_views(before).push(c@));
                assert(line_views(lines@.take(j + 1)) =~= line_views(lines@.take(j as int)).push(
                    lines@[j as int]@,
                ));
                j = j + 1;
            }
            assert(lines@.take(lines.len() as int) =~= lines@);
        },
        None => {
            proof {
                lemma_lines_of_absent(h.entries@, instance_id@);
            }
            assert(line_views(out@) =~= history_of(*h, instance_id@));
        },
    }
    out
}

/// Records a line the game printed and gives what the console window is
/// sent under the event `minecraft-console-line`.
pub fn emit_line(h: &mut ConsoleHistory, instance_id: &str, stream: ConsoleStream, line: String) -> (r: ConsoleLine)
    ensures
        r@ == (instance_id@, stream, line@),
        forall|k: Seq<char>|
            #![trigger history_of(*final(h), k)]
            history_of(*final(h), k) == if k == instance_id@ {
                kept(history_of(*old(h), k).push(r@))
            } else {
                history_of(*old(h), k)
            },
{
    let payload = ConsoleLine { instance_id: str_to_string(instance_id), stream, line };
    let r = copy_line(&payload);
    let ghost p = payload;
    push_history(h, payload);
    proof {
        assert forall|k: Seq<char>| #![trigger history_of(*h, k)]
            history_of(*h, k) == if k == instance_id@ {
                kept(history_of(*old(h), k).push(r@))
            } else {
                history_of(*old(h), k)
            } by {
            if k == instance_id@ {
                let s = lines_of(old(h).entries@, k);
                lemma_kept_views(s.push(p));
                assert(line_views(s.push(p)) =~= line_views(s).push(r@));
            }
        }
    }
    r
}

/// The history of an instance never holds more than `CONSOLE_HISTORY_LIMIT`
/// lines, and after a line is recorded it is the last line of the history,
/// with the lines before it in the order they came.
pub proof fn law_recorded_line_is_last(before: Seq<ConsoleLineView>, x: ConsoleLineView)
    ensures
        kept(before.push(x)).len() <= CONSOLE_HISTORY_LIMIT,
        kept(before.push(x)).len() > 0,
        kept(before.push(x)).last() == x,
        before.len() < CONSOLE_HISTORY_LIMIT ==> kept(before.push(x)) == before.push(x),
        before.len() >= CONSOLE_HISTORY_LIMIT ==> kept(before.push(x)) == before.skip(
            before.len() + 1 - CONSOLE_HISTORY_LIMIT,
        ).push(x),
{
    let s = before.push(x);
    if s.len() > CONSOLE_HISTORY_LIMIT {
        assert(kept(s) =~= before.skip(before.len() + 1 - CONSOLE_HISTORY_LIMIT).push(x));
    }
}

/// The event a process status is sent to the console window under, with
/// the status to send: nothing of it is kept.
pub fn emit_status(payload: ConsoleStatus) -> (r: (String, ConsoleStatus))
    ensures
        r.0@ == "minecraft-console-status"@,
        r.1 == payload,
{
    (str_to_string("minecraft-console-status"), payload)
}

/// Forgets the history of `instance_id`.
pub fn clear_history(h: &mut ConsoleHistory, instance_id: &str)
    ensures
        forall|k: Seq<char>|
            #![trigger history_of(*final(h), k)]
            history_of(*final(h), k) == if k == instance_id@ {
                Seq::<ConsoleLineView>::empty()
            } else {
                history_of(*old(h), k)
            },
{
    let mut rest: Vec<(String, Vec<ConsoleLine>)> = Vec::new();
    std::mem::swap(&mut rest, &mut h.entries);
    let ghost all = rest@;
    let mut kept_entries: Vec<(String, Vec<ConsoleLine>)> = Vec::new();
    while rest.len() > 0
        invariant
            rest@.len() <= all.len(),
            rest@ == all.skip(all.len() - rest@.len()),
            kept_entries@ == entries_without(all.take(all.len() - rest@.len()), instance_id@),
        decreases rest.len(),
    {
        let ghost c = all.len() - rest@.len();
        assert(rest@[0] == all[c]);
        let e = rest.remove(0);
        assert(all.take(c + 1).drop_last() =~= all.take(c));
        assert(all.take(c + 1).last() == all[c]);
        assert(rest@ =~= all.skip(c + 1));
        if !str_eq(e.0.as_str(), instance_id) {
            kept_entries.push(e);
        }
    }
    assert(all.take(all.len() as int) =~= all);
    h.entries = kept_entries;
    proof {
        assert forall|k: Seq<char>| #![trigger history_of(*h, k)]
            history_of(*h, k) == if k == instance_id@ {
                Seq::<ConsoleLineView>::empty()
            } else {
                history_of(*old(h), k)
            } by {
            lemma_lines_of_without(all, instance_id@, k);
            if k == instance_id@ {
                assert(history_of(*h, k) =~= Seq::<ConsoleLineView>::empty());
            }
        }
    }
}

} // verus!
