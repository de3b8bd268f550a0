//! Task statuses, the marker codec, and the line parser.

use vstd::prelude::*;

verus! {

/// Semantic display colour attached to each task status. The renderer maps
/// these to whatever colour type its backend uses.
#[derive(Debug, Copy, Clone, PartialEq, Eq, Structural)]
pub enum ColorId {
    Red,
    Green,
    Yellow,
    Blue,
}

/// The four-way classification of a task line.
#[derive(Debug, Copy, Clone, PartialEq, Eq, Hash, Structural)]
pub enum TaskKind {
    NotDone,
    Done,
    AlmostDone,
    Unsure,
}

/// The canonical three-character marker literal of a status.
pub open spec fn marker_chars(k: TaskKind) -> Seq<char> {
    match k {
        TaskKind::NotDone => seq!['[', ' ', ']'],
        TaskKind::Done => seq!['[', 'X', ']'],
        TaskKind::AlmostDone => seq!['[', '~', ']'],
        TaskKind::Unsure => seq!['[', '?', ']'],
    }
}

/// Exact-match decoding: precisely the four canonical marker literals decode,
/// everything else (including a marker with surrounding whitespace) does not.
pub open spec fn decode_marker(s: Seq<char>) -> Option<TaskKind> {
    if s == marker_chars(TaskKind::NotDone) {
        Some(TaskKind::NotDone)
    } else if s == marker_chars(TaskKind::Done) {
        Some(TaskKind::Done)
    } else if s == marker_chars(TaskKind::AlmostDone) {
        Some(TaskKind::AlmostDone)
    } else if s == marker_chars(TaskKind::Unsure) {
        Some(TaskKind::Unsure)
    } else {
        None
    }
}

/// The colour assigned to each status.
pub open spec fn color_of(k: TaskKind) -> ColorId {
    match k {
        TaskKind::NotDone => ColorId::Red,
        TaskKind::Done => ColorId::Green,
        TaskKind::AlmostDone => ColorId::Yellow,
        TaskKind::Unsure => ColorId::Blue,
    }
}

impl TaskKind {
    /// Encode a status as its marker literal.
    pub fn to_str(&self) -> (r: &'static str)
        ensures
            r@ == marker_chars(*self),
    {
        match self {
            TaskKind::NotDone => {
                let s = "[ ]";
                proof {
                    reveal_strlit("[ ]");
                    assert(s@ =~= marker_chars(TaskKind::NotDone));
                }
                s
            },
            TaskKind::Done => {
                let s = "[X]";
                proof {
                    reveal_strlit("[X]");
                    assert(s@ =~= marker_chars(TaskKind::Done));
                }
                s
            },
            TaskKind::AlmostDone => {
                let s = "[~]";
                proof {
                    reveal_strlit("[~]");
                    assert(s@ =~= marker_chars(TaskKind::AlmostDone));
                }
                s
            },
            TaskKind::Unsure => {
                let s = "[?]";
                proof {
                    reveal_strlit("[?]");
                    assert(s@ =~= marker_chars(TaskKind::Unsure));
                }
                s
            },
        }
    }

    /// The display colour of this status.
    pub fn to_color(&self) -> (r: ColorId)
        ensures
            r == color_of(*self),
    {
        match self {
            TaskKind::NotDone => ColorId::Red,
            TaskKind::Done => ColorId::Green,
            TaskKind::AlmostDone => ColorId::Yellow,
            TaskKind::Unsure => ColorId::Blue,
        }
    }

    /// Decode a marker string; `None` unless it is exactly one of the four
    /// canonical literals.
    pub fn try_from(s: &str) -> (r: Option<TaskKind>)
        ensures
            r == decode_marker(s@),
    {
        let n = s.unicode_len();
        if n != 3 {
            return None;
        }
        let c0 = s.get_char(0);
        let c1 = s.get_char(1);
        let c2 = s.get_char(2);
        if c0 == '[' && c2 == ']' {
            if c1 == ' ' {
                proof {
                    assert(s@ =~= marker_chars(TaskKind::NotDone));
                }
                Some(TaskKind::NotDone)
            } else if c1 == 'X' {
                proof {
                    assert(s@ =~= marker_chars(TaskKind::Done));
                }
                Some(TaskKind::Done)
            } else if c1 == '~' {
                proof {
                    assert(s@ =~= marker_chars(TaskKind::AlmostDone));
                }
                Some(TaskKind::AlmostDone)
            } else if c1 == '?' {
                proof {
                    assert(s@ =~= marker_chars(TaskKind::Unsure));
                }
                Some(TaskKind::Unsure)
            } else {
                None
            }
        } else {
            None
        }
    }
}

/// A character of the Unicode `White_Space` set, which both the raw marker
/// and the raw description have stripped from their edges before use.
pub open spec fn is_space_char(c: char) -> bool {
    c == ' ' || c == '\t' || c == '\n' || c == '\u{b}' || c == '\u{c}' || c == '\r'
        || c == '\u{85}' || c == '\u{a0}' || c == '\u{1680}' || c == '\u{2000}' || c == '\u{2001}'
        || c == '\u{2002}' || c == '\u{2003}' || c == '\u{2004}' || c == '\u{2005}'
        || c == '\u{2006}' || c == '\u{2007}' || c == '\u{2008}' || c == '\u{2009}'
        || c == '\u{200a}' || c == '\u{2028}' || c == '\u{2029}' || c == '\u{202f}'
        || c == '\u{205f}' || c == '\u{3000}'
}

fn is_space(c: char) -> (r: bool)
    ensures
        r == is_space_char(c),
{
    c == ' ' || c == '\t' || c == '\n' || c == '\u{b}' || c == '\u{c}' || c == '\r'
        || c == '\u{85}' || c == '\u{a0}' || c == '\u{1680}' || c == '\u{2000}' || c == '\u{2001}'
        || c == '\u{2002}' || c == '\u{2003}' || c == '\u{2004}' || c == '\u{2005}'
        || c == '\u{2006}' || c == '\u{2007}' || c == '\u{2008}' || c == '\u{2009}'
        || c == '\u{200a}' || c == '\u{2028}' || c == '\u{2029}' || c == '\u{202f}'
        || c == '\u{205f}' || c == '\u{3000}'
}

pub open spec fn trim_front(s: Seq<char>) -> Seq<char>
    decreases s.len(),
{
    if s.len() > 0 && is_space_char(s[0]) {
        trim_front(s.subrange(1, s.len() as int))
    } else {
        s
    }
}

pub open spec fn trim_back(s: Seq<char>) -> Seq<char>
    decreases s.len(),
{
    if s.len() > 0 && is_space_char(s[s.len() - 1]) {
        trim_back(s.subrange(0, s.len() - 1))
    } else {
        s
    }
}

/// The input without its leading and trailing whitespace.
pub open spec fn trim_chars(s: Seq<char>) -> Seq<char> {
    trim_back(trim_front(s))
}

/// Strip leading and trailing whitespace from a string.
pub fn trim_str<'a>(s: &'a str) -> (r: &'a str)
    ensures
        r@ == trim_chars(s@),
{
    let n = s.unicode_len();
    proof {
        assert(s@.subrange(0, n as int) =~= s@);
    }
    let mut lo: usize = 0;
    while lo < n && is_space(s.get_char(lo))
        invariant
            n == s@.len(),
            lo <= n,
            trim_front(s@) == trim_front(s@.subrange(lo as int, n as int)),
        decreases n - lo,
    {
        proof {
            let t = s@.subrange(lo as int, n as int);
            assert(t.subrange(1, t.len() as int) =~= s@.subrange(lo as int + 1, n as int));
        }
        lo = lo + 1;
    }
    proof {
        if lo == n {
            assert(s@.subrange(lo as int, n as int) =~= Seq::<char>::empty());
        }
        assert(trim_front(s@) == s@.subrange(lo as int, n as int));
    }
    let mut hi: usize = n;
    while hi > lo && is_space(s.get_char(hi - 1))
        invariant
            n == s@.len(),
            lo <= hi <= n,
            trim_front(s@) == s@.subrange(lo as int, n as int),
            trim_back(s@.subrange(lo as int, n as int)) == trim_back(
                s@.subrange(lo as int, hi as int),
            ),
        decreases hi,
    {
        proof {
            let t = s@.subrange(lo as int, hi as int);
            assert(t.subrange(0, t.len() - 1) =~= s@.subrange(lo as int, hi as int - 1));
        }
        hi = hi - 1;
    }
    proof {
        if hi == lo {
            assert(s@.subrange(lo as int, hi as int) =~= Seq::<char>::empty());
        }
        assert(trim_chars(s@) == s@.subrange(lo as int, hi as int));
    }
    s.substring_char(lo, hi)
}

/// Does the three-character separator `" - "` stand at position `i`?
pub open spec fn sep_at(s: Seq<char>, i: int) -> bool {
    0 <= i && i + 3 <= s.len() && s[i] == ' ' && s[i + 1] == '-' && s[i + 2] == ' '
}

pub open spec fn find_sep_from(s: Seq<char>, i: int) -> Option<int>
    decreases s.len() - i,
{
    if i < 0 || i + 3 > s.len() {
        None
    } else if sep_at(s, i) {
        Some(i)
    } else {
        find_sep_from(s, i + 1)
    }
}

/// Position of the first occurrence of the separator `" - "`, if any.
pub open spec fn find_sep(s: Seq<char>) -> Option<int> {
    find_sep_from(s, 0)
}

proof fn lemma_find_sep_from(s: Seq<char>, i: int)
    requires
        0 <= i,
    ensures
        match find_sep_from(s, i) {
            Some(j) => i <= j && sep_at(s, j),
            None => forall|m: int| i <= m ==> !sep_at(s, m),
        },
    decreases s.len() - i,
{
    if i + 3 > s.len() {
    } else if sep_at(s, i) {
    } else {
        lemma_find_sep_from(s, i + 1);
    }
}

fn find_separator(s: &str) -> (r: Option<usize>)
    ensures
        match r {
            Some(j) => find_sep(s@) == Some(j as int),
            None => find_sep(s@) is None,
        },
{
    let n = s.unicode_len();
    if n < 3 {
        return None;
    }
    let mut i: usize = 0;
    while i <= n - 3
        invariant
            n == s@.len(),
            3 <= n,
            i <= n,
            find_sep_from(s@, 0) == find_sep_from(s@, i as int),
        decreases n - i,
    {
        let a = s.get_char(i);
        let b = s.get_char(i + 1);
        let c = s.get_char(i + 2);
        if a == ' ' && b == '-' && c == ' ' {
            return Some(i);
        }
        i = i + 1;
    }
    None
}

/// The marker/status mapping is a bijection over the four canonical literals:
/// every status decodes back from its own marker, and a string only decodes
/// to the status whose marker it is. Any other string decodes to `None`.
pub proof fn lemma_marker_bijection()
    ensures
        forall|k: TaskKind| #[trigger] decode_marker(marker_chars(k)) == Some(k),
        forall|s: Seq<char>| (#[trigger] decode_marker(s)) is Some ==> marker_chars(
            decode_marker(s).unwrap(),
        ) == s,
{
    assert forall|k: TaskKind| #[trigger] decode_marker(marker_chars(k)) == Some(k) by {
        match k {
            TaskKind::NotDone => {},
            TaskKind::Done => {},
            TaskKind::AlmostDone => {},
            TaskKind::Unsure => {},
        }
    }
}

/// A parsed task: free-text description and its status. Immutable once made;
/// created only by a successful parse of one input line.
#[derive(Debug)]
pub struct Task {
    pub text: String,
    pub kind: TaskKind,
}

/// The mathematical value of a `Task`.
pub ghost struct TaskView {
    pub text: Seq<char>,
    pub kind: TaskKind,
}

impl View for Task {
    type V = TaskView;

    open spec fn view(&self) -> TaskView {
        TaskView { text: self.text@, kind: self.kind }
    }
}

impl Clone for Task {
    fn clone(&self) -> (r: Task)
        ensures
            r == *self,
    {
        Task { text: self.text.clone(), kind: self.kind }
    }
}

/// What parsing one raw line yields: split at the first `" - "`, trim and
/// decode the marker, trim the description; `None` on any failure.
pub open spec fn parse_line_spec(line: Seq<char>) -> Option<TaskView> {
    match find_sep(line) {
        None => None,
        Some(i) => match decode_marker(trim_chars(line.subrange(0, i))) {
            None => None,
            Some(k) => Some(
                TaskView { text: trim_chars(line.subrange(i + 3, line.len() as int)), kind: k },
            ),
        },
    }
}

/// Parse one raw line into a task. A malformed line (no separator, or a
/// marker that does not decode) yields `None` and is silently dropped by the
/// callers; this is deliberate, a tasks file may hold blank or foreign lines.
pub fn parse_line(line: &str) -> (r: Option<Task>)
    ensures
        match r {
            Some(t) => parse_line_spec(line@) == Some(t@),
            None => parse_line_spec(line@) is None,
        },
{
    let n = line.unicode_len();
    match find_separator(line) {
        None => None,
        Some(i) => {
            proof {
                lemma_find_sep_from(line@, 0);
            }
            let raw_marker = line.substring_char(0, i);
            let marker = trim_str(raw_marker);
            match TaskKind::try_from(marker) {
                None => None,
                Some(k) => {
                    let raw_text = line.substring_char(i + 3, n);
                    let text = trim_str(raw_text);
                    Some(Task { text: text.to_owned(), kind: k })
                },
            }
        },
    }
}

/// Views of a sequence of tasks.
pub open spec fn task_views(ts: Seq<Task>) -> Seq<TaskView> {
    ts.map_values(|t: Task| t@)
}

/// Views of a sequence of raw lines.
pub open spec fn line_views(ls: Seq<String>) -> Seq<Seq<char>> {
    ls.map_values(|l: String| l@)
}

/// The tasks that survive parsing a sequence of lines, in source order.
pub open spec fn parse_lines_spec(lines: Seq<Seq<char>>) -> Seq<TaskView>
    decreases lines.len(),
{
    if lines.len() == 0 {
        Seq::empty()
    } else {
        let rest = parse_lines_spec(lines.drop_last());
        match parse_line_spec(lines.last()) {
            Some(t) => rest.push(t),
            None => rest,
        }
    }
}

/// Parse every line and keep the successes, preserving source order. The
/// file-reading shell hands this the raw lines of the tasks file.
pub fn read_tasks(lines: &Vec<String>) -> (r: Vec<Task>)
    ensures
        task_views(r@) == parse_lines_spec(line_views(lines@)),
{
    let mut out: Vec<Task> = Vec::new();
    let mut idx: usize = 0;
    while idx < lines.len()
        invariant
            idx <= lines@.len(),
            task_views(out@) == parse_lines_spec(line_views(lines@).take(idx as int)),
        decreases lines@.len() - idx,
    {
        proof {
            let cur_lines = line_views(lines@).take(idx as int + 1);
            assert(cur_lines.drop_last() =~= line_views(lines@).take(idx as int));
            assert(cur_lines.last() == lines@[idx as int]@);
        }
        match parse_line(lines[idx].as_str()) {
            Some(t) => {
                let ghost pre_out = out@;
                let ghost tv = t@;
                out.push(t);
                proof {
                    assert(task_views(out@) =~= task_views(pre_out).push(tv));
                }
            },
            None => {},
        }
        idx = idx + 1;
    }
    proof {
        assert(line_views(lines@).take(lines@.len() as int) =~= line_views(lines@));
    }
    out
}

} // verus!
