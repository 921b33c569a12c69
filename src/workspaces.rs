use vstd::prelude::*;

use crate::text::{
    chars_of, parse_number, parse_u32, split_words, starts_with, starts_with_str, string_of,
    trim_end_parens, trim_parens, views_of, words,
};

verus! {

/// One workspace as the window manager's `workspaces` reply describes it.
#[derive(Debug, Clone)]
pub struct Workspace {
    pub id: u32,
    pub name: String,
    pub monitor: String,
    pub monitor_id: u32,
    pub windows: u32,
    pub hasfullscreen: bool,
    pub lastwindow: String,
    pub lastwindowtitle: String,
}

/// The contents of a `Workspace`.
pub ghost struct WorkspaceView {
    pub id: u32,
    pub name: Seq<char>,
    pub monitor: Seq<char>,
    pub monitor_id: u32,
    pub windows: u32,
    pub hasfullscreen: bool,
    pub lastwindow: Seq<char>,
    pub lastwindowtitle: Seq<char>,
}

impl View for Workspace {
    type V = WorkspaceView;

    open spec fn view(&self) -> WorkspaceView {
        WorkspaceView {
            id: self.id,
            name: self.name@,
            monitor: self.monitor@,
            monitor_id: self.monitor_id,
            windows: self.windows,
            hasfullscreen: self.hasfullscreen,
            lastwindow: self.lastwindow@,
            lastwindowtitle: self.lastwindowtitle@,
        }
    }
}

/// The contents of each workspace of `v`.
pub open spec fn workspace_views(v: Seq<Workspace>) -> Seq<WorkspaceView> {
    v.map_values(|w: Workspace| w@)
}

/// A workspace with id 0 and every other field empty.
pub open spec fn blank() -> WorkspaceView {
    WorkspaceView {
        id: 0,
        name: Seq::empty(),
        monitor: Seq::empty(),
        monitor_id: 0,
        windows: 0,
        hasfullscreen: false,
        lastwindow: Seq::empty(),
        lastwindowtitle: Seq::empty(),
    }
}

/// `l` without one `\r` at its end.
pub open spec fn strip_cr(l: Seq<char>) -> Seq<char> {
    if l.len() > 0 && l.last() == '\r' {
        l.drop_last()
    } else {
        l
    }
}

/// Splitting `s` into lines, left to right: the lines finished so far and the
/// line being read.
pub open spec fn lines_acc(s: Seq<char>) -> (Seq<Seq<char>>, Seq<char>)
    decreases s.len(),
{
    if s.len() == 0 {
        (Seq::empty(), Seq::empty())
    } else {
        let (done, cur) = lines_acc(s.drop_last());
        if s.last() == '\n' {
            (done.push(strip_cr(cur)), Seq::empty())
        } else {
            (done, cur.push(s.last()))
        }
    }
}

/// The lines of `s` as `str::lines` gives them: split at `\n`, a `\r` before the
/// `\n` dropped, no empty line after a final `\n`.
pub open spec fn lines(s: Seq<char>) -> Seq<Seq<char>> {
    let (done, cur) = lines_acc(s);
    if cur.len() > 0 {
        done.push(cur)
    } else {
        done
    }
}

/// Reading one line of the reply: from the workspace being read, `cur`, and the
/// workspaces finished, `out`, to the next pair; `None` where a field the line
/// announces is missing or is not a number.
///
/// A `lastwindowtitle` line also begins with `lastwindow`, and is read as one.
pub open spec fn step(cur: WorkspaceView, out: Seq<WorkspaceView>, line: Seq<char>) -> Option<
    (WorkspaceView, Seq<WorkspaceView>),
> {
    let parts = words(line);
    if starts_with(line, "workspace ID"@) {
        if parts.len() < 5 || parse_u32(parts[2]) is None {
            None
        } else {
            Some(
                (
                    WorkspaceView {
                        id: parse_u32(parts[2])->0,
                        name: trim_parens(parts[4]),
                        ..cur
                    },
                    if cur.id != 0 {
                        out.push(cur)
                    } else {
                        out
                    },
                ),
            )
        }
    } else if starts_with(line, "monitor"@) {
        if parts.len() < 6 || parse_u32(parts[5]) is None {
            None
        } else {
            Some(
                (WorkspaceView { monitor: parts[3], monitor_id: parse_u32(parts[5])->0, ..cur }, out),
            )
        }
    } else if starts_with(line, "windows"@) {
        if parts.len() < 2 || parse_u32(parts[1]) is None {
            None
        } else {
            Some((WorkspaceView { windows: parse_u32(parts[1])->0, ..cur }, out))
        }
    } else if starts_with(line, "hasfullscreen"@) {
        if parts.len() < 2 {
            None
        } else {
            Some((WorkspaceView { hasfullscreen: parts[1] == seq!['1'], ..cur }, out))
        }
    } else if starts_with(line, "lastwindow"@) {
        if parts.len() < 2 {
            None
        } else {
            Some((WorkspaceView { lastwindow: parts[1], ..cur }, out))
        }
    } else {
        Some((cur, out))
    }
}

/// Reading the lines `ls` one after another from a blank workspace.
pub open spec fn read_lines(ls: Seq<Seq<char>>) -> Option<(WorkspaceView, Seq<WorkspaceView>)>
    decreases ls.len(),
{
    if ls.len() == 0 {
        Some((blank(), Seq::empty()))
    } else {
        match read_lines(ls.drop_last()) {
            None => None,
            Some((cur, out)) => step(cur, out, ls.last()),
        }
    }
}

/// The workspaces that `reply` describes, each one that got a non-zero id, in
/// order; `None` where a line is missing a field or has a malformed number.
pub open spec fn reply_workspaces(reply: Seq<char>) -> Option<Seq<WorkspaceView>> {
    match read_lines(lines(reply)) {
        None => None,
        Some((cur, out)) => Some(
            if cur.id != 0 {
                out.push(cur)
            } else {
                out
            },
        ),
    }
}

impl Workspace {
    /// A workspace with id 0 and every other field empty.
    pub fn new() -> (r: Self)
        ensures
            r@ == blank(),
    {
        Workspace {
            id: 0,
            name: String::new(),
            monitor: String::new(),
            monitor_id: 0,
            windows: 0,
            hasfullscreen: false,
            lastwindow: String::new(),
            lastwindowtitle: String::new(),
        }
    }

    /// A workspace with the same fields.
    pub fn duplicate(&self) -> (r: Self)
        ensures
            r@ == self@,
    {
        Workspace {
            id: self.id,
            name: self.name.clone(),
            monitor: self.monitor.clone(),
            monitor_id: self.monitor_id,
            windows: self.windows,
            hasfullscreen: self.hasfullscreen,
            lastwindow: self.lastwindow.clone(),
            lastwindowtitle: self.lastwindowtitle.clone(),
        }
    }
}

fn read_line(cur: &mut Workspace, out: &mut Vec<Workspace>, line: &Vec<char>) -> (r: bool)
    ensures
        r == step(old(cur)@, workspace_views(old(out)@), line@) is Some,
        r ==> step(old(cur)@, workspace_views(old(out)@), line@) == Some(
            (final(cur)@, workspace_views(final(out)@)),
        ),
{
    let parts = split_words(line);
    proof {
        assert(views_of(parts@).len() == parts@.len());
        assert(forall|k: int| 0 <= k < parts@.len() ==> #[trigger] parts@[k]@ == words(line@)[k]);
    }
    if starts_with_str(line, "workspace ID") {
        if parts.len() < 5 {
            return false;
        }
        let id = match parse_number(&parts[2]) {
            Some(n) => n,
            None => return false,
        };
        if cur.id != 0 {
            let ghost before = out@;
            out.push(cur.duplicate());
            assert(workspace_views(out@) =~= workspace_views(before).push(old(cur)@));
        }
        cur.id = id;
        cur.name = string_of(&trim_end_parens(&parts[4]));
        true
    } else if starts_with_str(line, "monitor") {
        if parts.len() < 6 {
            return false;
        }
        let monitor_id = match parse_number(&parts[5]) {
            Some(n) => n,
            None => return false,
        };
        cur.monitor = string_of(&parts[3]);
        cur.monitor_id = monitor_id;
        true
    } else if starts_with_str(line, "windows") {
        if parts.len() < 2 {
            return false;
        }
        match parse_number(&parts[1]) {
            Some(n) => {
                cur.windows = n;
                true
            },
            None => false,
        }
    } else if starts_with_str(line, "hasfullscreen") {
        if parts.len() < 2 {
            return false;
        }
        let one = parts[1].len() == 1 && parts[1][0] == '1';
        assert(one == (parts@[1]@ == seq!['1'])) by {
            if parts@[1]@.len() == 1 {
                assert(parts@[1]@ =~= seq![parts@[1]@[0]]);
            }
        }
        cur.hasfullscreen = one;
        true
    } else if starts_with_str(line, "lastwindow") {
        if parts.len() < 2 {
            return false;
        }
        cur.lastwindow = string_of(&parts[1]);
        true
    } else {
        true
    }
}

} // verus!

verus! {

/// The workspaces that `reply`, the window manager's `workspaces` reply,
/// describes. A line beginning with `workspace ID` starts a new workspace, and
/// the lines after it fill its fields; fields not given keep the previous
/// workspace's values. A workspace is listed once it got a non-zero id. `None`
/// where a line lacks a field it announces or has a malformed number.
pub fn parse_reply(reply: &str) -> (r: Option<Vec<Workspace>>)
    ensures
        reply_workspaces(reply@) is None ==> r is None,
        reply_workspaces(reply@) matches Some(ws) ==> (r matches Some(v) && workspace_views(v@)
            == ws),
{
    let s = chars_of(reply);
    let mut out: Vec<Workspace> = Vec::new();
    let mut cur = Workspace::new();
    let mut line: Vec<char> = Vec::new();
    let mut failed = false;
    let mut i: usize = 0;
    assert(s@.take(0) =~= Seq::<char>::empty());
    assert(workspace_views(out@) =~= Seq::<WorkspaceView>::empty());
    while i < s.len()
        invariant
            i <= s@.len(),
            s@ == reply@,
            failed ==> read_lines(lines_acc(s@.take(i as int)).0) is None,
            !failed ==> read_lines(lines_acc(s@.take(i as int)).0) == Some(
                (cur@, workspace_views(out@)),
            ),
            line@ == lines_acc(s@.take(i as int)).1,
        decreases s@.len() - i,
    {
        assert(s@.take(i + 1).drop_last() =~= s@.take(i as int));
        let c = s[i];
        let ghost done = lines_acc(s@.take(i as int)).0;
        assert(s@.take(i + 1).last() == c);
        if c == '\n' {
            if line.len() > 0 && line[line.len() - 1] == '\r' {
                line.pop();
            }
            assert(line@ =~= strip_cr(lines_acc(s@.take(i as int)).1));
            assert(lines_acc(s@.take(i + 1)).0 == done.push(line@));
            assert(done.push(line@).drop_last() =~= done);
            if !failed {
                if !read_line(&mut cur, &mut out, &line) {
                    failed = true;
                }
            }
            line = Vec::new();
        } else {
            line.push(c);
        }
        i = i + 1;
    }
    assert(s@.take(i as int) =~= s@);
    let ghost done = lines_acc(s@).0;
    assert(done.push(line@).drop_last() =~= done);
    if failed {
        return None;
    }
    if line.len() > 0 {
        if !read_line(&mut cur, &mut out, &line) {
            return None;
        }
    }
    if cur.id != 0 {
        let ghost before = out@;
        out.push(cur);
        assert(workspace_views(out@) =~= workspace_views(before).push(cur@));
    }
    Some(out)
}

} // verus!
