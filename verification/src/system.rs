use vstd::prelude::*;
use crate::text::{chars_of, string_of, copy_range, parsed_integer, parse_usize, same_text};
use crate::descript::{text_lines, parse_lines};
use vstd::string::StringExecFns;

verus! {

/// Whether `c` is white space as `char::is_whitespace` says: the characters with the Unicode
/// property White_Space.
pub open spec fn is_white_space(c: char) -> bool {
    ('\u{9}' <= c <= '\u{d}') || c == ' ' || c == '\u{85}' || c == '\u{a0}' || c == '\u{1680}' || (
    '\u{2000}' <= c <= '\u{200a}') || c == '\u{2028}' || c == '\u{2029}' || c == '\u{202f}' || c
        == '\u{205f}' || c == '\u{3000}'
}

fn white_space(c: char) -> (r: bool)
    ensures
        r == is_white_space(c),
{
    ('\u{9}' <= c && c <= '\u{d}') || c == ' ' || c == '\u{85}' || c == '\u{a0}' || c == '\u{1680}' || (
    '\u{2000}' <= c && c <= '\u{200a}') || c == '\u{2028}' || c == '\u{2029}' || c == '\u{202f}' || c
        == '\u{205f}' || c == '\u{3000}'
}

/// `l` without the white space at its end.
pub open spec fn trim_end(l: Seq<char>) -> Seq<char>
    decreases l.len(),
{
    if l.len() > 0 && is_white_space(l.last()) {
        trim_end(l.drop_last())
    } else {
        l
    }
}

/// The characters at the end of `l` after its last white space.
pub open spec fn tail_word(l: Seq<char>) -> Seq<char>
    decreases l.len(),
{
    if l.len() == 0 || is_white_space(l.last()) {
        Seq::empty()
    } else {
        tail_word(l.drop_last()).push(l.last())
    }
}

/// The last word of `l`, words being separated by white space; none when `l` is blank.
pub open spec fn last_word(l: Seq<char>) -> Option<Seq<char>> {
    if trim_end(l).len() == 0 {
        None
    } else {
        Some(tail_word(trim_end(l)))
    }
}

/// The process ids that the lines of `netstat -ano` output give: the last word of each line,
/// where it is a number, in the order of the lines.
pub open spec fn pids_of_lines(ls: Seq<Seq<char>>) -> Seq<usize>
    decreases ls.len(),
{
    if ls.len() == 0 {
        Seq::empty()
    } else {
        pids_of_lines(ls.drop_last()) + match last_word(ls.last()) {
            Some(w) => match parsed_integer(w, false) {
                Some(v) => if v <= usize::MAX {
                    seq![v as usize]
                } else {
                    Seq::empty()
                },
                None => Seq::empty(),
            },
            None => Seq::empty(),
        }
    }
}

fn exec_last_word(l: &Vec<char>) -> (r: Option<Vec<char>>)
    ensures
        match r {
            Some(w) => last_word(l@) == Some(w@),
            None => last_word(l@) is None,
        },
{
    let mut end: usize = l.len();
    assert(l@.take(end as int) =~= l@);
    while end > 0 && white_space(l[end - 1])
        invariant
            end <= l@.len(),
            trim_end(l@.take(end as int)) == trim_end(l@),
        decreases end,
    {
        assert(l@.take(end as int).drop_last() =~= l@.take(end - 1));
        end = end - 1;
    }
    let ghost t = l@.take(end as int);
    assert(trim_end(t) == t);
    if end == 0 {
        return None;
    }
    let mut start: usize = end;
    while start > 0 && !white_space(l[start - 1])
        invariant
            start <= end <= l@.len(),
            t == l@.take(end as int),
            tail_word(t) == tail_word(l@.take(start as int)) + l@.subrange(start as int, end as int),
        decreases start,
    {
        assert(l@.take(start as int).drop_last() =~= l@.take(start - 1));
        assert(l@.subrange(start - 1, end as int) =~= seq![l@[start - 1]] + l@.subrange(start as int, end as int));
        start = start - 1;
    }
    assert(tail_word(l@.take(start as int)) =~= Seq::<char>::empty());
    let w = copy_range(l.as_slice(), start, end);
    assert(w@ =~= tail_word(t));
    Some(w)
}

/// The process ids that the output of `netstat -ano` gives, line by line.
pub fn listening_pids(output: &str) -> (r: Vec<usize>)
    ensures
        r@ == pids_of_lines(text_lines(output@)),
{
    let lines = parse_lines(output);
    let ghost lv = lines@.map_values(|l: Vec<char>| l@);
    let mut r: Vec<usize> = Vec::new();
    let mut k: usize = 0;
    while k < lines.len()
        invariant
            k <= lines@.len(),
            lv == lines@.map_values(|l: Vec<char>| l@),
            lv == text_lines(output@),
            r@ == pids_of_lines(lv.take(k as int)),
        decreases lines@.len() - k,
    {
        assert(lv.take(k + 1).drop_last() =~= lv.take(k as int));
        assert(lv.take(k + 1).last() == lines@[k as int]@);
        match exec_last_word(&lines[k]) {
            Some(w) => {
                let ws = string_of(w.as_slice());
                match parse_usize(ws.as_str()) {
                    Some(p) => {
                        r.push(p);
                        assert(r@ =~= pids_of_lines(lv.take(k + 1)));
                    },
                    None => {
                        assert(r@ =~= pids_of_lines(lv.take(k + 1)));
                    },
                }
            },
            None => {
                assert(r@ =~= pids_of_lines(lv.take(k + 1)));
            },
        }
        k = k + 1;
    }
    assert(lv.take(lv.len() as int) =~= lv);
    r
}

/// The command line that lists the process listening on `port`.
pub fn netstat_command(port: &str) -> (r: String)
    ensures
        r@ == "netstat -ano | findstr LISTENING | findstr "@ + port@,
{
    String::from_str("netstat -ano | findstr LISTENING | findstr ").concat(port)
}

/// The views of a list of strings.
pub open spec fn strs_view(v: Seq<String>) -> Seq<Seq<char>> {
    v.map_values(|s: String| s@)
}

/// A path, given by its components, names an executable of the system or of the shell: it
/// lies under the system directory (its components start with those of `system_dir`), or
/// its last component is `explorer.exe` or `ssp.exe`.
pub open spec fn is_os_level(path: Seq<Seq<char>>, system_dir: Seq<Seq<char>>) -> bool {
    ||| system_dir.len() <= path.len() && path.take(system_dir.len() as int) == system_dir
    ||| path.len() > 0 && (path.last() == "explorer.exe"@ || path.last() == "ssp.exe"@)
}

/// Whether the path whose components are `path` names an executable of the system or of the
/// shell, the system directory having the components `system_dir`.
pub fn is_os_level_executable(path: &Vec<String>, system_dir: &Vec<String>) -> (r: bool)
    ensures
        r == is_os_level(strs_view(path@), strs_view(system_dir@)),
{
    let ghost pv = strs_view(path@);
    let ghost dv = strs_view(system_dir@);
    let mut under = system_dir.len() <= path.len();
    let mut i: usize = 0;
    while under && i < system_dir.len()
        invariant
            under ==> system_dir@.len() <= path@.len(),
            i <= system_dir@.len(),
            pv == strs_view(path@),
            dv == strs_view(system_dir@),
            under ==> forall|j: int| 0 <= j < i ==> pv[j] == dv[j],
            !under ==> !(dv.len() <= pv.len() && pv.take(dv.len() as int) == dv),
        decreases system_dir@.len() - i, if under { 1int } else { 0int },
    {
        assert(pv[i as int] == path@[i as int]@);
        assert(dv[i as int] == system_dir@[i as int]@);
        if !same_text(path[i].as_str(), system_dir[i].as_str()) {
            under = false;
            assert(pv.take(dv.len() as int)[i as int] != dv[i as int]);
        } else {
            i = i + 1;
        }
    }
    if under {
        assert(pv.take(dv.len() as int) =~= dv);
        return true;
    }
    if path.len() == 0 {
        return false;
    }
    let last = path[path.len() - 1].as_str();
    assert(pv.last() == last@);
    proof {
        reveal_strlit("explorer.exe");
        reveal_strlit("ssp.exe");
    }
    same_text(last, "explorer.exe") || same_text(last, "ssp.exe")
}

/// A process as the machine's process table shows it: its id, its parent's id (where it has
/// one), the components of its executable's path, and that path as text (none where the path
/// is not valid text).
pub struct ProcessEntry {
    pub pid: usize,
    pub parent: Option<usize>,
    pub exe_components: Vec<String>,
    pub exe_text: Option<String>,
}

/// The position of the first entry of the table with the id `pid`.
pub open spec fn process_at(table: Seq<ProcessEntry>, pid: usize) -> Option<int>
    decreases table.len(),
{
    if table.len() == 0 {
        None
    } else if table.last().pid == pid {
        match process_at(table.drop_last(), pid) {
            Some(i) => Some(i),
            None => Some(table.len() - 1),
        }
    } else {
        process_at(table.drop_last(), pid)
    }
}

/// Where the walk up the parents from the entry at `i` stops, taking at most `steps` steps:
/// at a process with no parent, whose parent is not in the table, or whose parent's
/// executable belongs to the system or the shell.
pub open spec fn walk_up(table: Seq<ProcessEntry>, i: int, steps: nat, system_dir: Seq<Seq<char>>) -> int
    decreases steps,
{
    if steps == 0 || !(0 <= i < table.len()) {
        i
    } else {
        match table[i].parent {
            None => i,
            Some(pp) => match process_at(table, pp) {
                None => i,
                Some(j) => if is_os_level(strs_view(table[j].exe_components@), system_dir) {
                    i
                } else {
                    walk_up(table, j, (steps - 1) as nat, system_dir)
                },
            },
        }
    }
}

/// The executable, as text, that started the process `pid`: the walk goes up its parents
/// while the parent is in the table and its executable is not the system's or the shell's,
/// and gives the executable of the process where it stops. None when `pid` is not in the
/// table or that executable's path is not valid text. An acyclic walk takes fewer steps than
/// the table has processes; a walk that comes back to a process it has passed stops after
/// that many steps.
pub open spec fn parent_process_exe(table: Seq<ProcessEntry>, pid: usize, system_dir: Seq<Seq<char>>) -> Option<
    Seq<char>,
> {
    match process_at(table, pid) {
        None => None,
        Some(i) => match table[walk_up(table, i, table.len(), system_dir)].exe_text {
            Some(s) => Some(s@),
            None => None,
        },
    }
}

proof fn lemma_process_at(table: Seq<ProcessEntry>, pid: usize)
    ensures
        process_at(table, pid) matches Some(i) ==> 0 <= i < table.len() && table[i].pid == pid,
        process_at(table, pid) is None ==> forall|k: int| 0 <= k < table.len() ==> table[k].pid != pid,
        process_at(table, pid) matches Some(i) ==> forall|k: int| 0 <= k < i ==> table[k].pid != pid,
    decreases table.len(),
{
    if table.len() > 0 {
        lemma_process_at(table.drop_last(), pid);
        assert forall|k: int| 0 <= k < table.len() - 1 implies table.drop_last()[k] == table[k] by {}
    }
}

proof fn lemma_walk_up(table: Seq<ProcessEntry>, i: int, steps: nat, system_dir: Seq<Seq<char>>)
    requires
        0 <= i < table.len(),
    ensures
        0 <= walk_up(table, i, steps, system_dir) < table.len(),
    decreases steps,
{
    if steps > 0 {
        if let Some(pp) = table[i].parent {
            lemma_process_at(table, pp);
            if let Some(j) = process_at(table, pp) {
                lemma_walk_up(table, j, (steps - 1) as nat, system_dir);
            }
        }
    }
}

fn find_process(table: &Vec<ProcessEntry>, pid: usize) -> (r: Option<usize>)
    ensures
        match r {
            Some(i) => process_at(table@, pid) == Some(i as int),
            None => process_at(table@, pid) is None,
        },
{
    proof {
        lemma_process_at(table@, pid);
    }
    let mut i: usize = 0;
    while i < table.len()
        invariant
            i <= table@.len(),
            forall|k: int| 0 <= k < i ==> table@[k].pid != pid,
        decreases table@.len() - i,
    {
        if table[i].pid == pid {
            proof {
                lemma_process_at(table@, pid);
                match process_at(table@, pid) {
                    Some(j) => {
                        assert(!(j < i));
                        assert(!(j > i)) by {
                            if j > i {
                                assert(table@[i as int].pid != pid);
                            }
                        }
                    },
                    None => {
                        assert(table@[i as int].pid != pid);
                    },
                }
            }
            return Some(i);
        }
        i = i + 1;
    }
    None
}

/// The executable, as text, that started the process `pid`, found in the process table
/// `table` by walking up its parents past helper processes until the parent is the system's
/// or the shell's; `system_dir` gives the components of the system directory.
pub fn parent_process_path(table: &Vec<ProcessEntry>, pid: usize, system_dir: &Vec<String>) -> (r: Option<String>)
    ensures
        match r {
            Some(s) => parent_process_exe(table@, pid, strs_view(system_dir@)) == Some(s@),
            None => parent_process_exe(table@, pid, strs_view(system_dir@)) is None,
        },
{
    let ghost dir = strs_view(system_dir@);
    let start = match find_process(table, pid) {
        Some(i) => i,
        None => return None,
    };
    let mut cur: usize = start;
    let mut steps: usize = table.len();
    proof {
        lemma_process_at(table@, pid);
        lemma_walk_up(table@, start as int, table@.len(), dir);
    }
    loop
        invariant
            0 <= cur < table@.len(),
            steps <= table@.len(),
            dir == strs_view(system_dir@),
            walk_up(table@, cur as int, steps as nat, dir) == walk_up(
                table@,
                start as int,
                table@.len(),
                dir,
            ),
        ensures
            0 <= cur < table@.len(),
            cur as int == walk_up(table@, start as int, table@.len(), dir),
        decreases steps,
    {
        if steps == 0 {
            break;
        }
        let next = match table[cur].parent {
            None => break,
            Some(pp) => match find_process(table, pp) {
                None => break,
                Some(j) => j,
            },
        };
        proof {
            lemma_process_at(table@, table@[cur as int].parent->0);
        }
        if is_os_level_executable(&table[next].exe_components, system_dir) {
            break;
        }
        cur = next;
        steps = steps - 1;
    }
    match &table[cur].exe_text {
        Some(s) => Some(s.clone()),
        None => None,
    }
}

} // verus!
