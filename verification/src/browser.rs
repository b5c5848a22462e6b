//! The interactive browser as a state machine: what a key does to the mode,
//! the query and the selection, and what it asks the caller to do.
//!
//! The caller owns the terminal. Each round it computes the visible projects,
//! clamps the selection, draws, reads a key and hands it to `handle_key`; it
//! then carries out the action that comes back.

use vstd::prelude::*;
use vstd::string::StringExecFns;
use crate::project::{Project, ProjectView, registry_view};
use crate::text::{
    chars_of, contains_chars, decimal, is_substring, lowercased, string_from_chars, to_lowercase,
    u64_to_decimal,
};

verus! {

/// What the browser is doing.
#[derive(Debug, Clone, Copy, PartialEq, Eq, Structural)]
pub enum Mode {
    /// Moving through the list.
    Browse,
    /// Typing a query that narrows the list.
    Search,
    /// The dialog that adds a project is open; keys do nothing until it ends.
    AddProject,
}

/// A key, as far as the browser tells keys apart.
#[derive(Debug, Clone, Copy, PartialEq, Eq, Structural)]
pub enum Key {
    Up,
    Down,
    Enter,
    Esc,
    Backspace,
    Char(char),
    Other,
}

/// What the caller has to do after a key.
#[derive(Debug, Clone, Copy, PartialEq, Eq, Structural)]
pub enum Action {
    /// Nothing but the next round.
    Stay,
    /// End the loop.
    Quit,
    /// Open the project at this position of the registry, then persist.
    Open(usize),
    /// Run the dialog that adds a project, then call `finish_add`.
    PromptAdd,
}

/// The state of the browser.
#[derive(Debug)]
pub struct Browser {
    pub mode: Mode,
    /// The characters of the query typed so far.
    pub query: Vec<char>,
    /// The selected row of the visible list.
    pub selected: usize,
}

/// What a `Browser` holds, as mathematical values.
pub struct BrowserView {
    pub mode: Mode,
    pub query: Seq<char>,
    pub selected: nat,
}

impl View for Browser {
    type V = BrowserView;

    open spec fn view(&self) -> BrowserView {
        BrowserView { mode: self.mode, query: self.query@, selected: self.selected as nat }
    }
}

/// The selection after Down, with `count` rows visible: one further, but not
/// beyond the last row; unchanged where no row is visible.
pub open spec fn moved_down(selected: nat, count: nat) -> nat {
    if count == 0 {
        selected
    } else if selected + 1 < count {
        selected + 1
    } else {
        (count - 1) as nat
    }
}

/// The selection after Up: one back, but not before the first row.
pub open spec fn moved_up(selected: nat) -> nat {
    if selected > 0 {
        (selected - 1) as nat
    } else {
        0
    }
}

/// The selection as it is drawn with `count` rows visible: pulled back to the
/// last row where it lies beyond it.
pub open spec fn clamped(selected: nat, count: nat) -> nat {
    if selected >= count && count > 0 {
        (count - 1) as nat
    } else {
        selected
    }
}

/// The state after `key`, where `visible` holds the positions of the visible
/// projects.
pub open spec fn next_state(s: BrowserView, visible: Seq<usize>, key: Key) -> BrowserView {
    match s.mode {
        Mode::AddProject => s,
        Mode::Search => match key {
            Key::Esc => BrowserView { mode: Mode::Browse, query: Seq::empty(), selected: 0 },
            Key::Enter => if s.selected < visible.len() {
                BrowserView { selected: 0, ..s }
            } else {
                s
            },
            Key::Backspace => BrowserView {
                query: if s.query.len() > 0 {
                    s.query.drop_last()
                } else {
                    s.query
                },
                selected: 0,
                ..s
            },
            Key::Down => BrowserView { selected: moved_down(s.selected, visible.len()), ..s },
            Key::Up => BrowserView { selected: moved_up(s.selected), ..s },
            Key::Char(c) => BrowserView { query: s.query.push(c), selected: 0, ..s },
            Key::Other => s,
        },
        Mode::Browse => match key {
            Key::Char(c) => if c == '/' {
                BrowserView { mode: Mode::Search, query: Seq::empty(), selected: 0 }
            } else if c == 'a' {
                BrowserView { mode: Mode::AddProject, ..s }
            } else {
                s
            },
            Key::Down => BrowserView { selected: moved_down(s.selected, visible.len()), ..s },
            Key::Up => BrowserView { selected: moved_up(s.selected), ..s },
            Key::Enter => if s.selected < visible.len() {
                BrowserView { selected: 0, ..s }
            } else {
                s
            },
            _ => s,
        },
    }
}

/// What `key` asks the caller to do.
pub open spec fn next_action(s: BrowserView, visible: Seq<usize>, key: Key) -> Action {
    match s.mode {
        Mode::AddProject => Action::Stay,
        Mode::Search => match key {
            Key::Enter => if s.selected < visible.len() {
                Action::Open(visible[s.selected as int])
            } else {
                Action::Stay
            },
            _ => Action::Stay,
        },
        Mode::Browse => match key {
            Key::Char(c) => if c == 'q' {
                Action::Quit
            } else if c == 'a' {
                Action::PromptAdd
            } else {
                Action::Stay
            },
            Key::Enter => if s.selected < visible.len() {
                Action::Open(visible[s.selected as int])
            } else {
                Action::Stay
            },
            _ => Action::Stay,
        },
    }
}

/// The lowercase query `query` stands in the lowercase name or in the
/// lowercase path.
pub open spec fn hits(query: Seq<char>, name: Seq<char>, path: Seq<char>) -> bool {
    is_substring(query, name) || is_substring(query, path)
}

/// The project `p` is visible under `query`: the query is empty, or it stands
/// in the name or in the path of the project, letter case aside.
pub open spec fn matches_query(p: ProjectView, query: Seq<char>) -> bool {
    query.len() == 0 || hits(lowercased(query), lowercased(p.name), lowercased(p.path))
}

/// The positions of the projects of `ps` that are visible under `query`, in
/// ascending order.
pub open spec fn visible(ps: Seq<ProjectView>, query: Seq<char>) -> Seq<int>
    decreases ps.len(),
{
    if ps.len() == 0 {
        Seq::empty()
    } else {
        let front = visible(ps.drop_last(), query);
        if matches_query(ps.last(), query) {
            front.push(ps.len() - 1)
        } else {
            front
        }
    }
}

/// The positions `v` as integers.
pub open spec fn positions(v: Seq<usize>) -> Seq<int> {
    v.map_values(|i: usize| i as int)
}

/// The visible list holds exactly the positions of the projects that the
/// query matches, each once and in ascending order.
pub proof fn lemma_visible(ps: Seq<ProjectView>, query: Seq<char>)
    ensures
        visible(ps, query).len() <= ps.len(),
        forall|k: int|
            0 <= k < visible(ps, query).len() ==> 0 <= (#[trigger] visible(ps, query)[k]) < ps.len()
                && matches_query(ps[visible(ps, query)[k]], query),
        forall|k: int, l: int|
            0 <= k < l < visible(ps, query).len() ==> (#[trigger] visible(ps, query)[k]) < (
            #[trigger] visible(ps, query)[l]),
        forall|i: int|
            0 <= i < ps.len() && matches_query(#[trigger] ps[i], query) ==> visible(
                ps,
                query,
            ).contains(i),
    decreases ps.len(),
{
    if ps.len() > 0 {
        let front_ps = ps.drop_last();
        let front = visible(front_ps, query);
        let all = visible(ps, query);
        lemma_visible(front_ps, query);
        assert forall|k: int| 0 <= k < all.len() implies 0 <= (#[trigger] all[k]) < ps.len()
            && matches_query(ps[all[k]], query) by {
            if k < front.len() {
                assert(all[k] == front[k]);
                assert(ps[front[k]] == front_ps[front[k]]);
            }
        }
        assert forall|k: int, l: int| 0 <= k < l < all.len() implies (#[trigger] all[k]) < (
        #[trigger] all[l]) by {
            assert(all[k] == front[k]);
            if l < front.len() {
                assert(all[l] == front[l]);
            }
        }
        assert forall|i: int| 0 <= i < ps.len() && matches_query(#[trigger] ps[i], query) implies all.contains(
            i,
        ) by {
            if i < front_ps.len() {
                assert(front_ps[i] == ps[i]);
                assert(front.contains(i));
                let k = choose|k: int| 0 <= k < front.len() && front[k] == i;
                assert(all[k] == i);
            } else {
                assert(all[all.len() - 1] == i);
            }
        }
    }
}

/// With an empty query every project is visible, in the order of the
/// registry.
pub proof fn lemma_visible_empty_query(ps: Seq<ProjectView>)
    ensures
        visible(ps, Seq::empty()) == Seq::new(ps.len(), |i: int| i),
    decreases ps.len(),
{
    if ps.len() > 0 {
        lemma_visible_empty_query(ps.drop_last());
    }
    assert(visible(ps, Seq::empty()) =~= Seq::new(ps.len(), |i: int| i));
}

/// A query that matches no project leaves nothing visible.
pub proof fn lemma_visible_no_match(ps: Seq<ProjectView>, query: Seq<char>)
    requires
        forall|i: int| 0 <= i < ps.len() ==> !matches_query(#[trigger] ps[i], query),
    ensures
        visible(ps, query).len() == 0,
{
    lemma_visible(ps, query);
    if visible(ps, query).len() > 0 {
        let i = visible(ps, query)[0];
        assert(matches_query(ps[i], query));
    }
}

/// Whether the lowercase query stands in the lowercase name or in the
/// lowercase path.
pub fn query_hits(query: &Vec<char>, name: &Vec<char>, path: &Vec<char>) -> (b: bool)
    ensures
        b == hits(query@, name@, path@),
{
    contains_chars(name, query) || contains_chars(path, query)
}

/// Whether the project is visible under `query`.
pub fn is_visible(project: &Project, query: &Vec<char>) -> (b: bool)
    ensures
        b == matches_query(project@, query@),
{
    if query.len() == 0 {
        return true;
    }
    let q = chars_of(to_lowercase(string_from_chars(query).as_str()).as_str());
    let name = chars_of(to_lowercase(project.name.as_str()).as_str());
    let path = chars_of(to_lowercase(project.path.as_str()).as_str());
    query_hits(&q, &name, &path)
}

/// The positions of the projects that are visible under `query`, in ascending
/// order.
pub fn visible_projects(projects: &Vec<Project>, query: &Vec<char>) -> (v: Vec<usize>)
    ensures
        positions(v@) == visible(registry_view(projects@), query@),
        forall|k: int| 0 <= k < v@.len() ==> (#[trigger] v@[k]) < projects.len(),
        query@.len() == 0 ==> v@.len() == projects.len(),
{
    let ghost ps = registry_view(projects@);
    let mut v: Vec<usize> = Vec::new();
    let mut i: usize = 0;
    proof {
        assert(ps.take(0) =~= Seq::<ProjectView>::empty());
        assert(positions(v@) =~= Seq::<int>::empty());
    }
    while i < projects.len()
        invariant
            i <= projects.len(),
            ps == registry_view(projects@),
            positions(v@) == visible(ps.take(i as int), query@),
        decreases projects.len() - i,
    {
        proof {
            let t = ps.take(i + 1);
            assert(t.drop_last() =~= ps.take(i as int));
            assert(t.last() == projects@[i as int]@);
            assert(positions(v@.push(i)) =~= positions(v@).push(i as int));
        }
        if is_visible(&projects[i], query) {
            v.push(i);
        }
        i += 1;
    }
    proof {
        assert(ps.take(i as int) =~= ps);
        lemma_visible(ps, query@);
        assert forall|k: int| 0 <= k < v@.len() implies (#[trigger] v@[k]) < projects.len() by {
            assert(positions(v@)[k] == v@[k] as int);
        }
        if query@.len() == 0 {
            assert(query@ =~= Seq::<char>::empty());
            lemma_visible_empty_query(ps);
        }
    }
    v
}

/// No key moves a selection that lies within the visible list out of it, and
/// a project that is opened is the visible one that was selected.
pub proof fn lemma_selection_stays_in_view(s: BrowserView, visible: Seq<usize>, key: Key)
    requires
        s.selected < visible.len(),
    ensures
        next_state(s, visible, key).selected < visible.len(),
        next_action(s, visible, key) is Open ==> next_action(s, visible, key) == Action::Open(
            visible[s.selected as int],
        ),
{
}

/// A clamped selection lies within a list that has rows, and a selection
/// within the list is left where it is.
pub proof fn lemma_clamped(selected: nat, count: nat)
    ensures
        count > 0 ==> clamped(selected, count) < count,
        selected < count ==> clamped(selected, count) == selected,
{
}

/// The title of the list: it says so where the registry is empty, and gives
/// the number of visible projects and of all projects while a query narrows
/// the list.
pub open spec fn list_title_text(total: nat, shown: nat, mode: Mode, query: Seq<char>) -> Seq<char> {
    if total == 0 {
        " Projects (No projects yet) "@
    } else if mode == Mode::Search && query.len() > 0 {
        " Projects ("@ + decimal(shown) + "/"@ + decimal(total) + ") "@
    } else {
        " Projects "@
    }
}

impl Browser {
    /// A browser in Browse mode with an empty query and the first row
    /// selected.
    pub fn new() -> (b: Browser)
        ensures
            b@ == (BrowserView { mode: Mode::Browse, query: Seq::empty(), selected: 0 }),
    {
        Browser { mode: Mode::Browse, query: Vec::new(), selected: 0 }
    }

    /// Pulls the selection back into a list of `count` rows.
    pub fn clamp_selection(&mut self, count: usize)
        ensures
            final(self)@ == (BrowserView {
                selected: clamped(old(self)@.selected, count as nat),
                ..old(self)@
            }),
            count > 0 ==> final(self).selected < count,
    {
        if self.selected >= count && count > 0 {
            self.selected = count - 1;
        }
    }

    /// Takes one key. `visible` holds the positions, in the registry, of the
    /// projects that are visible under the query as it was before the key.
    pub fn handle_key(&mut self, visible: &Vec<usize>, key: Key) -> (action: Action)
        ensures
            final(self)@ == next_state(old(self)@, visible@, key),
            action == next_action(old(self)@, visible@, key),
    {
        let count = visible.len();
        match self.mode {
            Mode::AddProject => Action::Stay,
            Mode::Search => match key {
                Key::Esc => {
                    self.mode = Mode::Browse;
                    self.query.clear();
                    self.selected = 0;
                    Action::Stay
                },
                Key::Enter => self.open_selected(visible),
                Key::Backspace => {
                    self.query.pop();
                    self.selected = 0;
                    Action::Stay
                },
                Key::Down => {
                    self.move_down(count);
                    Action::Stay
                },
                Key::Up => {
                    self.move_up();
                    Action::Stay
                },
                Key::Char(c) => {
                    self.query.push(c);
                    self.selected = 0;
                    Action::Stay
                },
                Key::Other => Action::Stay,
            },
            Mode::Browse => match key {
                Key::Char(c) => {
                    if c == 'q' {
                        Action::Quit
                    } else if c == '/' {
                        self.mode = Mode::Search;
                        self.query.clear();
                        self.selected = 0;
                        Action::Stay
                    } else if c == 'a' {
                        self.mode = Mode::AddProject;
                        Action::PromptAdd
                    } else {
                        Action::Stay
                    }
                },
                Key::Down => {
                    self.move_down(count);
                    Action::Stay
                },
                Key::Up => {
                    self.move_up();
                    Action::Stay
                },
                Key::Enter => self.open_selected(visible),
                _ => Action::Stay,
            },
        }
    }

    /// The title of the list, with `shown` of `total` projects visible.
    pub fn list_title(&self, total: usize, shown: usize) -> (title: String)
        ensures
            title@ == list_title_text(total as nat, shown as nat, self.mode, self.query@),
    {
        if total == 0 {
            " Projects (No projects yet) ".to_owned()
        } else if self.mode == Mode::Search && self.query.len() > 0 {
            let mut title = " Projects (".to_owned();
            title.append(u64_to_decimal(shown as u64).as_str());
            title.append("/");
            title.append(u64_to_decimal(total as u64).as_str());
            title.append(") ");
            title
        } else {
            " Projects ".to_owned()
        }
    }

    /// Ends the dialog that adds a project: back to Browse, first row
    /// selected.
    pub fn finish_add(&mut self)
        ensures
            final(self)@ == (BrowserView { mode: Mode::Browse, selected: 0, ..old(self)@ }),
    {
        self.mode = Mode::Browse;
        self.selected = 0;
    }

    fn move_down(&mut self, count: usize)
        ensures
            final(self)@ == (BrowserView {
                selected: moved_down(old(self)@.selected, count as nat),
                ..old(self)@
            }),
    {
        if count > 0 {
            if self.selected < count - 1 {
                self.selected = self.selected + 1;
            } else {
                self.selected = count - 1;
            }
        }
    }

    fn move_up(&mut self)
        ensures
            final(self)@ == (BrowserView { selected: moved_up(old(self)@.selected), ..old(self)@ }),
    {
        if self.selected > 0 {
            self.selected = self.selected - 1;
        }
    }

    fn open_selected(&mut self, visible: &Vec<usize>) -> (action: Action)
        ensures
            old(self)@.selected < visible@.len() ==> action == Action::Open(
                visible@[old(self)@.selected as int],
            ) && final(self)@ == (BrowserView { selected: 0, ..old(self)@ }),
            old(self)@.selected >= visible@.len() ==> action == Action::Stay
                && final(self)@ == old(self)@,
    {
        if self.selected < visible.len() {
            let target = visible[self.selected];
            self.selected = 0;
            Action::Open(target)
        } else {
            Action::Stay
        }
    }
}

} // verus!
