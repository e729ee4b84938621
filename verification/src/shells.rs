//! Shells of a workspace: the windows of its tmux session.

use crate::commands::tail_of;
use crate::conversations::last_of;
use crate::order::{lemma_placed_at, placed, sorted};
use crate::text::{
    before, blank, cat2, cat3, chars_of, comes_before, contains, join, lemma_before,
    lemma_before_is, lemma_join_holds, lines, lines_of, opt_text, string_between, text_less, texts,
    trim,
};
use vstd::prelude::*;

verus! {

/// How a workspace configures its shells.
pub struct ShellsConfig {
    pub tmux_session: Option<String>,
}

/// A window of a session.
pub struct ShellWindow {
    pub name: String,
    pub working_dir: String,
    pub preview: String,
}

/// Manages the tmux session of a workspace.
pub struct TmuxManager {
    session: String,
    available: bool,
}

impl TmuxManager {
    /// The name of the session.
    pub closed spec fn name(self) -> Seq<char> {
        self.session@
    }

    /// Whether tmux is there.
    pub closed spec fn usable(self) -> bool {
        self.available
    }

    /// A manager for a session. `available` tells whether tmux is there.
    pub fn with_availability(session_name: &str, available: bool) -> (r: TmuxManager)
        ensures
            r.name() == session_name@,
            r.usable() == available,
    {
        TmuxManager { session: session_name.to_owned(), available }
    }

    /// Whether tmux is there.
    pub fn is_available(&self) -> (r: bool)
        ensures
            r == self.usable(),
    {
        self.available
    }

    /// The name of the session.
    pub fn session_name(&self) -> (r: &str)
        ensures
            r@ == self.name(),
    {
        self.session.as_str()
    }

    /// The name by which tmux knows a window of the session.
    pub fn target(&self, window: &str) -> (r: String)
        ensures
            r@ == self.name() + ":"@ + window@,
    {
        cat3(self.session.as_str(), ":", window)
    }

    /// The arguments with which tmux shows a window of the session.
    pub fn attach_args(&self, window: &str) -> (r: Vec<String>)
        ensures
            texts(r@) == seq![
                "attach-session"@,
                "-t"@,
                self.name(),
                ";"@,
                "select-window"@,
                "-t"@,
                self.name() + ":"@ + window@,
            ],
    {
        let r = vec![
            "attach-session".to_owned(),
            "-t".to_owned(),
            self.session.clone(),
            ";".to_owned(),
            "select-window".to_owned(),
            "-t".to_owned(),
            self.target(window),
        ];
        proof {
            assert(texts(r@) =~= seq![
                "attach-session"@,
                "-t"@,
                self.name(),
                ";"@,
                "select-window"@,
                "-t"@,
                self.name() + ":"@ + window@,
            ]);
        }
        r
    }

    /// The session of a workspace: the configured one, else one that is named
    /// after the workspace.
    pub fn session_name_for(workspace_name: &str, config: &ShellsConfig) -> (r: String)
        ensures
            r@ == match config.tmux_session {
                Some(s) => s@,
                None => "apiari-"@ + workspace_name@,
            },
    {
        match &config.tmux_session {
            Some(s) => s.clone(),
            None => cat2("apiari-", workspace_name),
        }
    }
}

// ---------------------------------------------------------------------------
// What tmux prints
// ---------------------------------------------------------------------------

/// How many lines of a window are shown.
pub const PREVIEW_LINES: usize = 5;

/// What is shown of a window: the last lines of its contents.
pub open spec fn preview(contents: Seq<char>) -> Seq<char> {
    join(last_of(lines(contents), PREVIEW_LINES as int), "\n"@)
}

/// What is shown of a window: the last lines of its contents.
pub fn preview_of(contents: &str) -> (r: String)
    ensures
        r@ == preview(contents@),
{
    tail_of(contents, PREVIEW_LINES)
}

impl TmuxManager {
    /// What is shown of a window, out of what tmux captured of its pane:
    /// nothing where tmux is not there or the capture failed.
    pub fn capture_preview(&self, captured: &Option<String>) -> (r: Option<String>)
        ensures
            opt_text(r) == match *captured {
                Some(s) => if self.usable() {
                    Some(preview(s@))
                } else {
                    None
                },
                None => None,
            },
    {
        if !self.available {
            return None;
        }
        match captured {
            Some(s) => Some(preview_of(s.as_str())),
            None => None,
        }
    }
}

/// A window's name and directory.
pub struct Window {
    pub name: Seq<char>,
    pub working_dir: Seq<char>,
}

/// A window as a line of tmux's list names it: its name, and behind the first
/// tab its directory.
pub open spec fn window_in(line: Seq<char>) -> Window {
    let k = before(line, '\t');
    if k < line.len() {
        Window { name: line.take(k), working_dir: line.skip(k + 1) }
    } else {
        Window { name: line, working_dir: seq![] }
    }
}

/// The windows that the lines of tmux's list name; blank lines name none.
pub open spec fn windows_in(list: Seq<Seq<char>>) -> Seq<Window>
    decreases list.len(),
{
    if list.len() == 0 {
        seq![]
    } else {
        let rest = windows_in(list.drop_last());
        if trim(list.last()).len() > 0 {
            rest.push(window_in(list.last()))
        } else {
            rest
        }
    }
}

/// Whether a window comes before another in the list.
pub open spec fn window_before() -> spec_fn(Window, Window) -> bool {
    |a: Window, b: Window| text_less(a.name, b.name)
}

/// A window without what it shows.
pub struct WindowEntry {
    pub name: String,
    pub working_dir: String,
}

impl View for WindowEntry {
    type V = Window;

    open spec fn view(&self) -> Window {
        Window { name: self.name@, working_dir: self.working_dir@ }
    }
}

/// The windows of a list.
pub open spec fn window_views(list: Seq<WindowEntry>) -> Seq<Window> {
    list.map_values(|w: WindowEntry| w@)
}

fn read_window(line: &str) -> (r: WindowEntry)
    ensures
        r@ == window_in(line@),
{
    let v = chars_of(line);
    let n: usize = v.len();
    let mut k: usize = 0;
    while k < n && v[k] != '\t'
        invariant
            n == v@.len(),
            0 <= k <= n,
            forall|j: int| 0 <= j < k ==> v@[j] != '\t',
        decreases n - k,
    {
        k = k + 1;
    }
    proof {
        lemma_before_is(v@, '\t', k as int);
    }
    if k < n {
        let name = string_between(&v, 0, k);
        let dir = string_between(&v, k + 1, n);
        proof {
            assert(line@.take(k as int) =~= name@);
            assert(line@.skip(k + 1) =~= dir@);
        }
        WindowEntry { name, working_dir: dir }
    } else {
        WindowEntry { name: line.to_owned(), working_dir: String::new() }
    }
}

/// The windows of a session by name, out of what tmux prints about them.
pub fn read_windows(output: &str) -> (r: Vec<WindowEntry>)
    ensures
        window_views(r@) == sorted(windows_in(lines(output@)), window_before()),
{
    let list = lines_of(output);
    let ghost all = texts(list@);
    let ghost less = window_before();
    let n: usize = list.len();
    let mut out: Vec<WindowEntry> = Vec::new();
    let mut i: usize = 0;
    proof {
        assert(window_views(out@) =~= sorted(windows_in(all.take(0)), less));
    }
    while i < n
        invariant
            n == list@.len(),
            all == texts(list@),
            less == window_before(),
            0 <= i <= n,
            window_views(out@) == sorted(windows_in(all.take(i as int)), less),
        decreases n - i,
    {
        let ghost found = windows_in(all.take(i as int));
        proof {
            assert(all.take(i + 1).drop_last() =~= all.take(i as int));
            assert(all.take(i + 1).last() == list@[i as int]@);
        }
        if !blank(list[i].as_str()) {
            let one = read_window(list[i].as_str());
            let ghost order = window_views(out@);
            let mut k: usize = out.len();
            while k > 0 && comes_before(one.name.as_str(), out[k - 1].name.as_str())
                invariant
                    0 <= k <= out@.len(),
                    order == window_views(out@),
                    less == window_before(),
                    forall|j: int| k <= j < order.len() ==> less(one@, #[trigger] order[j]),
                decreases k,
            {
                k = k - 1;
            }
            proof {
                lemma_placed_at(order, one@, less, k as int);
                assert(window_views(out@.insert(k as int, one)) =~= order.insert(k as int, one@));
                let grown = found.push(one@);
                assert(grown.drop_last() =~= found);
                assert(sorted(grown, less) == placed(sorted(found, less), one@, less));
            }
            out.insert(k, one);
        }
        i = i + 1;
    }
    proof {
        assert(all.take(n as int) =~= all);
    }
    out
}

/// A window with what it shows, where that could be found out.
pub fn shell_window(entry: WindowEntry, contents: &Option<String>) -> (r: ShellWindow)
    ensures
        r.name == entry.name,
        r.working_dir == entry.working_dir,
        r.preview@ == match *contents {
            Some(s) => preview(s@),
            None => seq![],
        },
{
    let shown = match contents {
        Some(s) => preview_of(s.as_str()),
        None => String::new(),
    };
    ShellWindow { name: entry.name, working_dir: entry.working_dir, preview: shown }
}

/// A line about a window tells its name up to the tab and its directory behind
/// it.
pub proof fn law_window_line(name: Seq<char>, dir: Seq<char>)
    requires
        !name.contains('\t'),
    ensures
        window_in(name + seq!['\t'] + dir) == (Window { name, working_dir: dir }),
        window_in(name) == (Window { name, working_dir: Seq::<char>::empty() }),
{
    let s = name + seq!['\t'] + dir;
    let k = name.len() as int;
    assert forall|i: int| 0 <= i < k implies s[i] != '\t' by {
        assert(s[i] == name[i]);
    }
    assert(s[k] == '\t');
    lemma_before_is(s, '\t', k);
    assert(s.take(k) =~= name);
    assert(s.skip(k + 1) =~= dir);
    lemma_before(name, '\t');
    if before(name, '\t') < name.len() {
        assert(name[before(name, '\t')] == '\t');
    }
}

/// Every line that says anything is a window, and no blank line is.
pub proof fn law_filled_lines_are_windows(list: Seq<Seq<char>>, k: int)
    ensures
        0 <= k < list.len() && trim(list[k]).len() > 0 ==> windows_in(list).contains(
            window_in(list[k]),
        ),
        forall|i: int|
            0 <= i < windows_in(list).len() ==> exists|j: int|
                0 <= j < list.len() && trim(#[trigger] list[j]).len() > 0 && #[trigger] windows_in(
                    list,
                )[i] == window_in(list[j]),
    decreases list.len(),
{
    if list.len() > 0 {
        let front = list.drop_last();
        let rest = windows_in(front);
        let all = windows_in(list);
        law_filled_lines_are_windows(front, k);
        if 0 <= k < list.len() && trim(list[k]).len() > 0 {
            if k < front.len() {
                assert(front[k] == list[k]);
                let i = choose|i: int| 0 <= i < rest.len() && rest[i] == window_in(list[k]);
                assert(all[i] == window_in(list[k]));
            } else {
                assert(all[rest.len() as int] == window_in(list[k]));
            }
        }
        assert forall|i: int| 0 <= i < all.len() implies exists|j: int|
            0 <= j < list.len() && trim(#[trigger] list[j]).len() > 0 && #[trigger] all[i]
                == window_in(list[j]) by {
            if i < rest.len() {
                assert(all[i] == rest[i]);
                let j = choose|j: int|
                    0 <= j < front.len() && trim(#[trigger] front[j]).len() > 0 && rest[i]
                        == window_in(front[j]);
                assert(list[j] == front[j]);
            } else {
                assert(list[list.len() - 1] == list.last());
            }
        }
    }
}

/// A preview holds the last lines of what a window shows, five at most: each of
/// the last five is in it, and it is the whole where there are no more.
pub proof fn law_preview_shows_the_last_lines(contents: Seq<char>, k: int)
    ensures
        lines(contents).len() <= 5 ==> preview(contents) == join(lines(contents), "\n"@),
        lines(contents).len() > 5 ==> preview(contents) == join(
            lines(contents).skip(lines(contents).len() - 5),
            "\n"@,
        ),
        0 <= k < lines(contents).len() && k + 5 >= lines(contents).len() ==> contains(
            preview(contents),
            lines(contents)[k],
        ),
{
    let all = lines(contents);
    let kept = last_of(all, 5);
    if all.len() <= 5 {
        assert(kept =~= all);
    } else {
        assert(kept =~= all.skip(all.len() - 5));
    }
    if 0 <= k < all.len() && k + 5 >= all.len() {
        let at = if all.len() <= 5 {
            k
        } else {
            k - (all.len() - 5)
        };
        assert(kept[at] == all[k]);
        lemma_join_holds(kept, "\n"@, at);
    }
}

} // verus!
