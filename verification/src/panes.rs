//! The right pane: the tabs of each chat, which of them shows, and how they are
//! opened, moved and closed.
use vstd::hash_map::StringHashMap;
use vstd::prelude::*;

use crate::message::{MessageStatus, SessionMessageEntry};
use crate::nav::{ChatPanels, RightSurface, SessionPanels};

verus! {

/// A tab with a subagent's transcript.
pub struct SubagentTab {
    pub id: u64,
    pub doc_id: String,
    pub title: String,
}

/// What a [`SubagentTab`] holds.
#[verifier::ext_equal]
pub struct SubagentView {
    pub id: u64,
    pub doc_id: Seq<char>,
    pub title: Seq<char>,
}

impl View for SubagentTab {
    type V = SubagentView;

    open spec fn view(&self) -> SubagentView {
        SubagentView { id: self.id, doc_id: self.doc_id@, title: self.title@ }
    }
}

/// What a sequence of subagents' tabs holds.
pub open spec fn subagent_views(s: Seq<SubagentTab>) -> Seq<SubagentView> {
    Seq::new(s.len(), |i: int| s[i]@)
}

/// The right panes of all chats, by chat id.
pub struct RightPane {
    panels: SessionPanels,
    tabs: StringHashMap<Vec<RightSurface>>,
    subagents: Vec<SubagentTab>,
    diff_seq: u64,
    subagent_seq: u64,
    expanded: bool,
}

/// What a [`RightPane`] holds.
#[verifier::ext_equal]
pub struct PaneView {
    /// Which panels are open, by chat.
    pub panels: Map<Seq<char>, ChatPanels>,
    /// The tabs in their order, by chat.
    pub tabs: Map<Seq<char>, Seq<RightSurface>>,
    /// The subagents that have a tab.
    pub subagents: Seq<SubagentView>,
    /// The last handle of a diff.
    pub diff_seq: u64,
    /// The last handle of a subagent.
    pub subagent_seq: u64,
    /// The pane takes the conversation's place.
    pub expanded: bool,
}

impl View for RightPane {
    type V = PaneView;

    closed spec fn view(&self) -> PaneView {
        PaneView {
            panels: self.panels@,
            tabs: self.tabs@.map_values(|v: Vec<RightSurface>| v@),
            subagents: subagent_views(self.subagents@),
            diff_seq: self.diff_seq,
            subagent_seq: self.subagent_seq,
            expanded: self.expanded,
        }
    }
}

/// The title listed for a handle, the first of two.
pub open spec fn titled(list: Seq<(u64, String)>, id: u64) -> Option<Seq<char>>
    decreases list.len(),
{
    if list.len() == 0 {
        None
    } else {
        let before = titled(list.drop_last(), id);
        if before is Some {
            before
        } else if list.last().0 == id {
            Some(list.last().1@)
        } else {
            None
        }
    }
}

/// The place of the first subagent of which `p` holds.
pub open spec fn first_where(s: Seq<SubagentView>, p: spec_fn(SubagentView) -> bool) -> Option<int>
    decreases s.len(),
{
    if s.len() == 0 {
        None
    } else {
        let before = first_where(s.drop_last(), p);
        if before is Some {
            before
        } else if p(s.last()) {
            Some(s.len() - 1)
        } else {
            None
        }
    }
}

/// That a subagent's tab has a handle.
pub open spec fn has_id(id: u64) -> spec_fn(SubagentView) -> bool {
    |v: SubagentView| v.id == id
}

/// That a subagent's tab shows a document.
pub open spec fn has_doc(doc: Seq<char>) -> spec_fn(SubagentView) -> bool {
    |v: SubagentView| v.doc_id == doc
}

/// The title of a tab; none for one whose content is gone.
pub open spec fn surface_title(
    surface: RightSurface,
    diffs: Seq<(u64, String)>,
    terminals: Seq<(u64, String)>,
    subagents: Seq<SubagentView>,
) -> Option<Seq<char>> {
    match surface {
        RightSurface::Diff(id) => titled(diffs, id),
        RightSurface::Terminal(id) => titled(terminals, id),
        RightSurface::Subagent(id) => match first_where(subagents, has_id(id)) {
            Some(i) => Some(subagents[i].title),
            None => None,
        },
        RightSurface::Picker => None,
    }
}

/// The tabs that show, with their titles.
pub open spec fn surface_rows(
    stored: Seq<RightSurface>,
    diffs: Seq<(u64, String)>,
    terminals: Seq<(u64, String)>,
    subagents: Seq<SubagentView>,
) -> Seq<(RightSurface, Seq<char>)>
    decreases stored.len(),
{
    if stored.len() == 0 {
        Seq::empty()
    } else {
        let before = surface_rows(stored.drop_last(), diffs, terminals, subagents);
        match surface_title(stored.last(), diffs, terminals, subagents) {
            Some(t) => before.push((stored.last(), t)),
            None => before,
        }
    }
}

/// What a row holds.
pub open spec fn row_view(r: (RightSurface, String)) -> (RightSurface, Seq<char>) {
    (r.0, r.1@)
}

/// What a sequence of rows holds.
pub open spec fn pane_rows(s: Seq<(RightSurface, String)>) -> Seq<(RightSurface, Seq<char>)> {
    Seq::new(s.len(), |i: int| row_view(s[i]))
}

/// Whether a tab shows.
pub open spec fn shows(rows: Seq<(RightSurface, Seq<char>)>, surface: RightSurface) -> bool {
    exists|i: int| 0 <= i < rows.len() && (#[trigger] rows[i]).0 == surface
}

/// The tab to show: the picked one while it shows, else the first, else the
/// picker.
pub open spec fn resolved(picked: RightSurface, rows: Seq<(RightSurface, Seq<char>)>) -> RightSurface {
    if picked != RightSurface::Picker && shows(rows, picked) {
        picked
    } else if rows.len() > 0 {
        rows[0].0
    } else {
        RightSurface::Picker
    }
}

/// That a tab is another one.
pub open spec fn other_than(surface: RightSurface) -> spec_fn(RightSurface) -> bool {
    |s: RightSurface| s != surface
}

/// A sequence with one item moved to another place.
pub open spec fn moved<T>(s: Seq<T>, from: int, to: int) -> Seq<T> {
    s.remove(from).insert(to, s[from])
}

impl PaneView {
    /// The tabs of a chat.
    pub open spec fn tabs_for(self, key: Seq<char>) -> Seq<RightSurface> {
        if self.tabs.contains_key(key) {
            self.tabs[key]
        } else {
            Seq::empty()
        }
    }

    /// The panels of a chat.
    pub open spec fn panels_for(self, key: Seq<char>) -> ChatPanels {
        crate::nav::panels_for(self.panels, key)
    }

    /// With a tab shown.
    pub open spec fn activated(self, key: Seq<char>, surface: RightSurface) -> PaneView {
        PaneView {
            panels: self.panels.insert(
                key,
                ChatPanels { right_active: surface, ..self.panels_for(key) },
            ),
            ..self
        }
    }

    /// With a tab added and shown.
    pub open spec fn with_tab(self, key: Seq<char>, surface: RightSurface) -> PaneView {
        PaneView {
            tabs: self.tabs.insert(key, self.tabs_for(key).push(surface)),
            ..self
        }.activated(key, surface)
    }

    /// With the pane open or closed; a closed pane is never expanded.
    pub open spec fn toggled(self, key: Seq<char>) -> PaneView {
        let panels = crate::nav::changes_toggled(self.panels, key);
        PaneView {
            panels,
            expanded: self.expanded && crate::nav::panels_for(panels, key).changes_open,
            ..self
        }
    }

    /// Whether the pane shows; it never does beside the canvas for a new chat.
    pub open spec fn open(self, key: Seq<char>, in_chat: bool) -> bool {
        in_chat && self.panels_for(key).changes_open
    }

    /// With the pane open for a tab that is about to show.
    pub open spec fn opened(self, key: Seq<char>, in_chat: bool) -> PaneView {
        if self.open(key, in_chat) {
            self
        } else {
            self.toggled(key)
        }
    }

    /// With a subagent's tab: the one that its document has, else a new one.
    pub open spec fn with_subagent(
        self,
        key: Seq<char>,
        in_chat: bool,
        doc: Seq<char>,
        title: Seq<char>,
    ) -> PaneView {
        let s = self.opened(key, in_chat);
        match first_where(s.subagents, has_doc(doc)) {
            Some(i) => s.activated(key, RightSurface::Subagent(s.subagents[i].id)),
            None => {
                let id = s.subagent_seq.wrapping_add(1);
                PaneView {
                    subagents: s.subagents.push(SubagentView { id, doc_id: doc, title }),
                    subagent_seq: id,
                    ..s
                }.with_tab(key, RightSurface::Subagent(id))
            },
        }
    }

    /// With a tab closed.
    pub open spec fn without(self, key: Seq<char>, surface: RightSurface) -> PaneView {
        let p = self.panels_for(key);
        PaneView {
            tabs: if self.tabs.contains_key(key) {
                self.tabs.insert(key, self.tabs[key].filter(other_than(surface)))
            } else {
                self.tabs
            },
            subagents: match surface {
                RightSurface::Subagent(id) => match first_where(self.subagents, has_id(id)) {
                    Some(i) => self.subagents.remove(i),
                    None => self.subagents,
                },
                _ => self.subagents,
            },
            panels: self.panels.insert(
                key,
                if p.right_active == surface {
                    ChatPanels { right_active: RightSurface::Picker, ..p }
                } else {
                    p
                },
            ),
            ..self
        }
    }

    /// No document has two tabs.
    pub open spec fn wf(self) -> bool {
        forall|i: int, j: int|
            0 <= i < j < self.subagents.len() ==> (#[trigger] self.subagents[i]).doc_id != (
            #[trigger] self.subagents[j]).doc_id
    }
}

fn find_title(list: &Vec<(u64, String)>, id: u64) -> (r: Option<String>)
    ensures
        crate::markdown::opt_text(r) == titled(list@, id),
{
    let mut i: usize = 0;
    assert(list@.take(0) =~= Seq::empty());
    while i < list.len()
        invariant
            i <= list@.len(),
            titled(list@.take(i as int), id) is None,
        decreases list.len() - i,
    {
        assert(list@.take(i + 1).drop_last() =~= list@.take(i as int));
        assert(list@.take(i + 1).last() == list@[i as int]);
        if list[i].0 == id {
            proof {
                lemma_titled_grows(list@, id, i + 1);
            }
            return Some(list[i].1.clone());
        }
        i = i + 1;
    }
    assert(list@.take(i as int) =~= list@);
    None
}

proof fn lemma_titled_grows(list: Seq<(u64, String)>, id: u64, n: int)
    requires
        0 <= n <= list.len(),
        titled(list.take(n), id) is Some,
    ensures
        titled(list, id) == titled(list.take(n), id),
    decreases list.len() - n,
{
    if n < list.len() {
        assert(list.take(n + 1).drop_last() =~= list.take(n));
        lemma_titled_grows(list, id, n + 1);
    } else {
        assert(list.take(n) =~= list);
    }
}

proof fn lemma_first_grows(s: Seq<SubagentView>, p: spec_fn(SubagentView) -> bool, n: int)
    requires
        0 <= n <= s.len(),
        first_where(s.take(n), p) is Some,
    ensures
        first_where(s, p) == first_where(s.take(n), p),
    decreases s.len() - n,
{
    if n < s.len() {
        assert(s.take(n + 1).drop_last() =~= s.take(n));
        lemma_first_grows(s, p, n + 1);
    } else {
        assert(s.take(n) =~= s);
    }
}

/// The place found is the first of which `p` holds; none is found where it holds
/// nowhere.
pub proof fn lemma_first_where(s: Seq<SubagentView>, p: spec_fn(SubagentView) -> bool)
    ensures
        match first_where(s, p) {
            Some(i) => 0 <= i < s.len() && p(s[i]) && forall|j: int| 0 <= j < i ==> !p(s[j]),
            None => forall|j: int| 0 <= j < s.len() ==> !p(s[j]),
        },
    decreases s.len(),
{
    if s.len() > 0 {
        lemma_first_where(s.drop_last(), p);
        match first_where(s.drop_last(), p) {
            Some(i) => {
                assert(p(s.drop_last()[i]));
                assert forall|j: int| 0 <= j < i implies !p(s[j]) by {
                    assert(!p(s.drop_last()[j]));
                }
            },
            None => {
                assert forall|j: int| 0 <= j < s.len() - 1 implies !p(s[j]) by {
                    assert(!p(s.drop_last()[j]));
                }
            },
        }
    }
}

fn copy_tabs(v: &Vec<RightSurface>) -> (r: Vec<RightSurface>)
    ensures
        r@ == v@,
{
    let mut r: Vec<RightSurface> = Vec::new();
    let mut i: usize = 0;
    while i < v.len()
        invariant
            i <= v@.len(),
            r@ == v@.take(i as int),
        decreases v.len() - i,
    {
        r.push(v[i]);
        assert(v@.take(i + 1) =~= v@.take(i as int).push(v@[i as int]));
        i = i + 1;
    }
    assert(v@.take(i as int) =~= v@);
    r
}

/// The tab to show: the picked one while it shows, else the first, else the
/// picker.
pub fn resolve_surface(picked: RightSurface, rows: &Vec<(RightSurface, String)>) -> (r: RightSurface)
    ensures
        r == resolved(picked, pane_rows(rows@)),
{
    let ghost views = pane_rows(rows@);
    let picks = match picked {
        RightSurface::Picker => false,
        _ => true,
    };
    let mut i: usize = 0;
    while picks && i < rows.len()
        invariant
            i <= rows@.len(),
            views == pane_rows(rows@),
            picks == (picked != RightSurface::Picker),
            forall|j: int| 0 <= j < i ==> (#[trigger] views[j]).0 != picked,
        decreases rows.len() - i,
    {
        assert(views[i as int] == row_view(rows@[i as int]));
        if rows[i].0 == picked {
            assert(shows(views, picked));
            return picked;
        }
        i = i + 1;
    }
    assert(views.len() == rows@.len());
    if rows.len() > 0 {
        assert(views[0] == row_view(rows@[0]));
        rows[0].0
    } else {
        RightSurface::Picker
    }
}

/// What opening a subagent's transcript asks for.
#[derive(Debug, Clone, Copy, PartialEq, Eq, Structural)]
pub enum SubagentStep {
    /// Its tab is there: show it.
    Focus { id: u64 },
    /// Open it live: watch the document, and follow its end.
    Watch { id: u64 },
    /// Open it frozen: fetch its snapshot, and read from the top.
    Fetch { id: u64 },
}

/// What the toggle of the pane did.
#[derive(Debug, Clone, Copy, PartialEq, Eq, Structural)]
pub struct ToggleStep {
    pub open: bool,
    /// The conversation comes back into view.
    pub was_expanded: bool,
}

impl RightPane {
    /// No tabs, everything closed.
    pub fn new() -> (r: Self)
        ensures
            r@ == (PaneView {
                panels: Map::empty(),
                tabs: Map::empty(),
                subagents: Seq::empty(),
                diff_seq: 0,
                subagent_seq: 0,
                expanded: false,
            }),
            r@.wf(),
    {
        let r = RightPane {
            panels: SessionPanels::default(),
            tabs: StringHashMap::new(),
            subagents: Vec::new(),
            diff_seq: 0,
            subagent_seq: 0,
            expanded: false,
        };
        assert(r@.tabs =~= Map::empty());
        assert(r@.subagents =~= Seq::empty());
        r
    }

    /// Whether the pane shows.
    pub fn is_open(&self, key: &str, in_chat: bool) -> (r: bool)
        ensures
            r == self@.open(key@, in_chat),
    {
        in_chat && self.panels.get(key).changes_open
    }

    /// Whether the pane takes the conversation's place.
    pub fn is_expanded(&self) -> (r: bool)
        ensures
            r == self@.expanded,
    {
        self.expanded
    }

    /// Whether a chat's terminal shows.
    pub fn terminal_open(&self, key: &str) -> (r: bool)
        ensures
            r == self@.panels_for(key@).terminal_open,
    {
        self.panels.get(key).terminal_open
    }

    /// Toggles a chat's terminal. Says whether it is open now: the keyboard then
    /// goes to it, else to the composer.
    pub fn toggle_terminal(&mut self, key: &str) -> (r: bool)
        ensures
            final(self)@ == (PaneView {
                panels: crate::nav::terminal_toggled(old(self)@.panels, key@),
                ..old(self)@
            }),
            r == final(self)@.panels_for(key@).terminal_open,
    {
        self.panels.toggle_terminal(key)
    }

    fn stored(&self, key: &str) -> (r: Vec<RightSurface>)
        ensures
            r@ == self@.tabs_for(key@),
    {
        match self.tabs.get(key) {
            Some(v) => copy_tabs(v),
            None => Vec::new(),
        }
    }

    fn store(&mut self, key: &str, tabs: Vec<RightSurface>)
        ensures
            final(self)@ == (PaneView { tabs: old(self)@.tabs.insert(key@, tabs@), ..old(self)@ }),
    {
        let ghost before = self@;
        let ghost added = tabs@;
        self.tabs.insert(key.to_owned(), tabs);
        assert(self@.tabs =~= before.tabs.insert(key@, added));
    }

    fn find_id(&self, id: u64) -> (r: Option<usize>)
        ensures
            match r {
                Some(i) => first_where(self@.subagents, has_id(id)) == Some(i as int) && i
                    < self.subagents@.len(),
                None => first_where(self@.subagents, has_id(id)) is None,
            },
    {
        let ghost views = self@.subagents;
        let mut i: usize = 0;
        assert(views.take(0) =~= Seq::empty());
        while i < self.subagents.len()
            invariant
                i <= self.subagents@.len(),
                views == subagent_views(self.subagents@),
                first_where(views.take(i as int), has_id(id)) is None,
            decreases self.subagents.len() - i,
        {
            assert(views.take(i + 1).drop_last() =~= views.take(i as int));
            assert(views.take(i + 1).last() == self.subagents@[i as int]@);
            if self.subagents[i].id == id {
                proof {
                    lemma_first_grows(views, has_id(id), i + 1);
                }
                return Some(i);
            }
            i = i + 1;
        }
        assert(views.take(i as int) =~= views);
        None
    }

    fn find_doc(&self, doc: &str) -> (r: Option<usize>)
        ensures
            match r {
                Some(i) => first_where(self@.subagents, has_doc(doc@)) == Some(i as int) && i
                    < self.subagents@.len(),
                None => first_where(self@.subagents, has_doc(doc@)) is None,
            },
    {
        let ghost views = self@.subagents;
        let wanted = doc.to_owned();
        let mut i: usize = 0;
        assert(views.take(0) =~= Seq::empty());
        while i < self.subagents.len()
            invariant
                i <= self.subagents@.len(),
                wanted@ == doc@,
                views == subagent_views(self.subagents@),
                first_where(views.take(i as int), has_doc(doc@)) is None,
            decreases self.subagents.len() - i,
        {
            assert(views.take(i + 1).drop_last() =~= views.take(i as int));
            assert(views.take(i + 1).last() == self.subagents@[i as int]@);
            if self.subagents[i].doc_id == wanted {
                proof {
                    lemma_first_grows(views, has_doc(doc@), i + 1);
                }
                return Some(i);
            }
            i = i + 1;
        }
        assert(views.take(i as int) =~= views);
        None
    }

    fn title_of(
        &self,
        surface: RightSurface,
        diffs: &Vec<(u64, String)>,
        terminals: &Vec<(u64, String)>,
    ) -> (r: Option<String>)
        ensures
            crate::markdown::opt_text(r) == surface_title(
                surface,
                diffs@,
                terminals@,
                self@.subagents,
            ),
    {
        match surface {
            RightSurface::Diff(id) => find_title(diffs, id),
            RightSurface::Terminal(id) => find_title(terminals, id),
            RightSurface::Subagent(id) => match self.find_id(id) {
                Some(i) => {
                    assert(self@.subagents[i as int] == self.subagents@[i as int]@);
                    Some(self.subagents[i].title.clone())
                },
                None => None,
            },
            RightSurface::Picker => None,
        }
    }

    /// The tabs that show, in their order, with their titles; a tab whose
    /// content is gone does not show. `diffs` and `terminals` are what is there.
    pub fn right_surface_rows(
        &self,
        key: &str,
        diffs: &Vec<(u64, String)>,
        terminals: &Vec<(u64, String)>,
    ) -> (r: Vec<(RightSurface, String)>)
        ensures
            pane_rows(r@) == surface_rows(
                self@.tabs_for(key@),
                diffs@,
                terminals@,
                self@.subagents,
            ),
    {
        let stored = self.stored(key);
        let mut rows: Vec<(RightSurface, String)> = Vec::new();
        let mut i: usize = 0;
        assert(pane_rows(rows@) =~= Seq::empty());
        assert(stored@.take(0) =~= Seq::empty());
        while i < stored.len()
            invariant
                i <= stored@.len(),
                pane_rows(rows@) == surface_rows(
                    stored@.take(i as int),
                    diffs@,
                    terminals@,
                    self@.subagents,
                ),
            decreases stored.len() - i,
        {
            assert(stored@.take(i + 1).drop_last() =~= stored@.take(i as int));
            assert(stored@.take(i + 1).last() == stored@[i as int]);
            if let Some(title) = self.title_of(stored[i], diffs, terminals) {
                let row = (stored[i], title);
                assert(pane_rows(rows@.push(row)) =~= pane_rows(rows@).push(row_view(row)));
                rows.push(row);
            }
            i = i + 1;
        }
        assert(stored@.take(i as int) =~= stored@);
        rows
    }

    /// The tab to show.
    pub fn resolved_right_active(
        &self,
        key: &str,
        diffs: &Vec<(u64, String)>,
        terminals: &Vec<(u64, String)>,
    ) -> (r: RightSurface)
        ensures
            r == resolved(
                self@.panels_for(key@).right_active,
                surface_rows(self@.tabs_for(key@), diffs@, terminals@, self@.subagents),
            ),
    {
        let rows = self.right_surface_rows(key, diffs, terminals);
        resolve_surface(self.panels.get(key).right_active, &rows)
    }

    /// What the pane shows: nothing while it is closed, else its tab, or the
    /// picker where it has none.
    pub fn shown_surface(
        &self,
        key: &str,
        in_chat: bool,
        diffs: &Vec<(u64, String)>,
        terminals: &Vec<(u64, String)>,
    ) -> (r: Option<RightSurface>)
        ensures
            r == if self@.open(key@, in_chat) {
                Some(
                    resolved(
                        self@.panels_for(key@).right_active,
                        surface_rows(self@.tabs_for(key@), diffs@, terminals@, self@.subagents),
                    ),
                )
            } else {
                None
            },
    {
        if self.is_open(key, in_chat) {
            Some(self.resolved_right_active(key, diffs, terminals))
        } else {
            None
        }
    }

    /// Moves a tab to another place. Says whether anything moved.
    pub fn reorder_right_tabs(&mut self, key: &str, from: usize, to: usize) -> (r: bool)
        ensures
            r == (from < old(self)@.tabs_for(key@).len() && to < old(self)@.tabs_for(key@).len()
                && from != to),
            final(self)@ == if r {
                PaneView {
                    tabs: old(self)@.tabs.insert(
                        key@,
                        moved(old(self)@.tabs_for(key@), from as int, to as int),
                    ),
                    ..old(self)@
                }
            } else {
                old(self)@
            },
    {
        let mut tabs = self.stored(key);
        let ghost before = tabs@;
        if from < tabs.len() && to < tabs.len() && from != to {
            let surface = tabs.remove(from);
            tabs.insert(to, surface);
            assert(tabs@ =~= moved(before, from as int, to as int));
            self.store(key, tabs);
            true
        } else {
            false
        }
    }

    /// Shows a tab.
    pub fn set_right_active(&mut self, key: &str, surface: RightSurface)
        ensures
            final(self)@ == old(self)@.activated(key@, surface),
    {
        let ghost before = self@;
        let mut p = self.panels.get(key);
        p.right_active = surface;
        self.panels.set(key, p);
        assert(self@.tabs =~= before.tabs);
        assert(self@ =~= before.activated(key@, surface));
    }

    fn add_tab(&mut self, key: &str, surface: RightSurface)
        ensures
            final(self)@ == old(self)@.with_tab(key@, surface),
    {
        let mut tabs = self.stored(key);
        tabs.push(surface);
        self.store(key, tabs);
        self.set_right_active(key, surface);
    }

    /// Adds a tab for a new diff and shows it; gives the diff's handle. Every
    /// request opens a diff of its own.
    pub fn register_diff_surface(&mut self, key: &str) -> (r: u64)
        ensures
            r == old(self)@.diff_seq.wrapping_add(1),
            final(self)@ == (PaneView { diff_seq: r, ..old(self)@ }).with_tab(
                key@,
                RightSurface::Diff(r),
            ),
    {
        self.diff_seq = self.diff_seq.wrapping_add(1);
        let id: u64 = self.diff_seq;
        self.add_tab(key, RightSurface::Diff(id));
        id
    }

    /// Adds a tab for a terminal that was opened, and shows it.
    pub fn add_terminal_surface(&mut self, key: &str, opened: Option<u64>)
        ensures
            final(self)@ == match opened {
                Some(id) => old(self)@.with_tab(key@, RightSurface::Terminal(id)),
                None => old(self)@,
            },
    {
        if let Some(id) = opened {
            self.add_tab(key, RightSurface::Terminal(id));
        }
    }

    /// Toggles the pane; closing it ends a takeover.
    pub fn toggle_right_pane(&mut self, key: &str) -> (r: ToggleStep)
        ensures
            final(self)@ == old(self)@.toggled(key@),
            r == (ToggleStep {
                open: final(self)@.panels_for(key@).changes_open,
                was_expanded: old(self)@.expanded,
            }),
    {
        let was_expanded = self.expanded;
        let open = self.panels.toggle_changes(key);
        if !open {
            self.expanded = false;
        }
        ToggleStep { open, was_expanded }
    }

    /// Starts or ends a takeover.
    pub fn toggle_right_pane_expand(&mut self) -> (r: bool)
        ensures
            r == !old(self)@.expanded,
            final(self)@ == (PaneView { expanded: r, ..old(self)@ }),
    {
        self.expanded = !self.expanded;
        self.expanded
    }

    /// Opens a subagent's transcript: shows the tab that its document has, else
    /// a new one, live or frozen. The pane opens for it.
    pub fn add_subagent_surface(
        &mut self,
        key: &str,
        in_chat: bool,
        doc_id: &str,
        title: &str,
        frozen: bool,
    ) -> (r: SubagentStep)
        requires
            old(self)@.wf(),
        ensures
            final(self)@ == old(self)@.with_subagent(key@, in_chat, doc_id@, title@),
            final(self)@.wf(),
            r == match first_where(old(self)@.subagents, has_doc(doc_id@)) {
                Some(i) => SubagentStep::Focus { id: old(self)@.subagents[i].id },
                None => if frozen {
                    SubagentStep::Fetch { id: old(self)@.subagent_seq.wrapping_add(1) }
                } else {
                    SubagentStep::Watch { id: old(self)@.subagent_seq.wrapping_add(1) }
                },
            },
    {
        let ghost start = self@;
        if !self.is_open(key, in_chat) {
            self.toggle_right_pane(key);
        }
        assert(self@ == start.opened(key@, in_chat));
        assert(self@.subagents == start.subagents);
        proof {
            lemma_first_where(self@.subagents, has_doc(doc_id@));
        }
        match self.find_doc(doc_id) {
            Some(i) => {
                assert(self@.subagents[i as int] == self.subagents@[i as int]@);
                let id: u64 = self.subagents[i].id;
                self.set_right_active(key, RightSurface::Subagent(id));
                SubagentStep::Focus { id }
            },
            None => {
                let ghost before = self@;
                self.subagent_seq = self.subagent_seq.wrapping_add(1);
                let id: u64 = self.subagent_seq;
                let tab = SubagentTab {
                    id,
                    doc_id: doc_id.to_owned(),
                    title: title.to_owned(),
                };
                let ghost shown = tab@;
                self.subagents.push(tab);
                assert(self@.subagents =~= before.subagents.push(shown));
                assert(self@.tabs =~= before.tabs);
                proof {
                    assert forall|i: int, j: int|
                        0 <= i < j < self@.subagents.len() implies (#[trigger] self@.subagents[i]).doc_id
                        != (#[trigger] self@.subagents[j]).doc_id by {
                        if j == before.subagents.len() {
                            assert(!has_doc(doc_id@)(before.subagents[i]));
                        }
                    }
                }
                self.add_tab(key, RightSurface::Subagent(id));
                if frozen {
                    SubagentStep::Fetch { id }
                } else {
                    SubagentStep::Watch { id }
                }
            },
        }
    }

    /// Closes a tab. Gives the document that is no longer watched, for a
    /// subagent's tab.
    pub fn close_right_surface(&mut self, key: &str, surface: RightSurface) -> (r: Option<String>)
        requires
            old(self)@.wf(),
        ensures
            final(self)@ == old(self)@.without(key@, surface),
            final(self)@.wf(),
            crate::markdown::opt_text(r) == match surface {
                RightSurface::Subagent(id) => match first_where(
                    old(self)@.subagents,
                    has_id(id),
                ) {
                    Some(i) => Some(old(self)@.subagents[i].doc_id),
                    None => None,
                },
                _ => None,
            },
    {
        let ghost start = self@;
        self.drop_tab(key, surface);
        let ghost second = self@;
        let mut doc: Option<String> = None;
        if let RightSurface::Subagent(id) = surface {
            if let Some(i) = self.find_id(id) {
                assert(self@.subagents[i as int] == self.subagents@[i as int]@);
                doc = Some(self.subagents[i].doc_id.clone());
                self.subagents.remove(i);
                assert(self@.subagents =~= second.subagents.remove(i as int));
                assert(self@.tabs =~= second.tabs);
            }
        }
        let ghost third = self@;
        let mut p = self.panels.get(key);
        if p.right_active == surface {
            p.right_active = RightSurface::Picker;
        }
        self.panels.set(key, p);
        assert(self@.tabs =~= third.tabs);
        assert(self@ =~= start.without(key@, surface));
        doc
    }

    fn drop_tab(&mut self, key: &str, surface: RightSurface)
        ensures
            final(self)@ == (PaneView {
                tabs: if old(self)@.tabs.contains_key(key@) {
                    old(self)@.tabs.insert(
                        key@,
                        old(self)@.tabs[key@].filter(other_than(surface)),
                    )
                } else {
                    old(self)@.tabs
                },
                ..old(self)@
            }),
    {
        if self.tabs.get(key).is_none() {
            return;
        }
        let stored = self.stored(key);
        let mut left: Vec<RightSurface> = Vec::new();
        let mut i: usize = 0;
        let ghost other = other_than(surface);
        assert(stored@.take(0).filter(other) =~= Seq::empty()) by {
            reveal(Seq::filter);
        }
        while i < stored.len()
            invariant
                i <= stored@.len(),
                other == other_than(surface),
                left@ == stored@.take(i as int).filter(other),
            decreases stored.len() - i,
        {
            assert(stored@.take(i + 1).drop_last() =~= stored@.take(i as int));
            assert(stored@.take(i + 1).last() == stored@[i as int]);
            proof {
                reveal(Seq::filter);
            }
            if stored[i] != surface {
                left.push(stored[i]);
            }
            i = i + 1;
        }
        assert(stored@.take(i as int) =~= stored@);
        self.store(key, left);
    }
}

/// A tab being dragged: where it came from, and the place that it is over and
/// was over before.
#[derive(Debug, Clone, Copy, PartialEq, Eq, Structural)]
pub struct RightTabDrag {
    pub from: usize,
    pub over: usize,
    /// Counts the places it was over.
    pub epoch: u64,
    pub prev_over: usize,
}

/// A drag that is over a place.
pub open spec fn dragged_over(drag: Option<RightTabDrag>, from: usize, over: usize) -> RightTabDrag {
    match drag {
        Some(d) => if d.over != over {
            RightTabDrag { over, prev_over: d.over, epoch: d.epoch.wrapping_add(1), ..d }
        } else {
            d
        },
        None => RightTabDrag { from, over, epoch: 0, prev_over: from },
    }
}

/// The drag moved over a place. Says whether the tabs slide.
pub fn update_right_tab_drag_over(drag: &mut Option<RightTabDrag>, from: usize, over: usize) -> (r:
    bool)
    ensures
        *final(drag) == Some(dragged_over(*old(drag), from, over)),
        r == (*final(drag) != *old(drag)),
{
    match *drag {
        Some(d) => {
            if d.over == over {
                return false;
            }
            *drag = Some(
                RightTabDrag {
                    from: d.from,
                    over,
                    epoch: d.epoch.wrapping_add(1),
                    prev_over: d.over,
                },
            );
            true
        },
        None => {
            *drag = Some(RightTabDrag { from, over, epoch: 0, prev_over: from });
            true
        },
    }
}

/// Forgets a drag that is over: the pointer was let go outside the strip.
pub fn heal_drag(drag: &mut Option<RightTabDrag>, active: bool)
    ensures
        *final(drag) == if active {
            *old(drag)
        } else {
            None
        },
{
    if !active {
        *drag = None;
    }
}

/// The tab was dropped. Gives the place to move it to; a drop from another
/// chat's strip moves nothing.
pub fn drop_right_tab(drag: &mut Option<RightTabDrag>, same_strip: bool, from: usize) -> (r: Option<
    usize,
>)
    ensures
        *final(drag) == None::<RightTabDrag>,
        r == if !same_strip {
            None
        } else {
            match *old(drag) {
                Some(d) => Some(d.over),
                None => Some(from),
            }
        },
{
    let to = match *drag {
        Some(d) => d.over,
        None => from,
    };
    *drag = None;
    if same_strip {
        Some(to)
    } else {
        None
    }
}

/// The glyph of a tab.
#[derive(Debug, Clone, Copy, PartialEq, Eq, Structural)]
pub enum TabIcon {
    GitBranch,
    Bot,
    Terminal,
}

/// The glyph of a tab.
pub open spec fn icon_of(surface: RightSurface) -> TabIcon {
    match surface {
        RightSurface::Diff(_) => TabIcon::GitBranch,
        RightSurface::Subagent(_) => TabIcon::Bot,
        _ => TabIcon::Terminal,
    }
}

/// The glyph of a tab.
pub fn tab_icon(surface: RightSurface) -> (r: TabIcon)
    ensures
        r == icon_of(surface),
{
    match surface {
        RightSurface::Diff(_) => TabIcon::GitBranch,
        RightSurface::Subagent(_) => TabIcon::Bot,
        _ => TabIcon::Terminal,
    }
}

/// A tab as its strip shows it.
pub struct TabChip {
    pub surface: RightSurface,
    pub title: String,
    pub icon: TabIcon,
    pub active: bool,
    /// Its subagent is at work: a spinner in place of the glyph.
    pub running: bool,
}

/// Whether a chip is the one for a row.
pub open spec fn chip_for(
    chip: TabChip,
    row: (RightSurface, Seq<char>),
    active: RightSurface,
    running: Seq<u64>,
) -> bool {
    &&& chip.surface == row.0
    &&& chip.title@ == row.1
    &&& chip.icon == icon_of(row.0)
    &&& chip.active == (row.0 == active)
    &&& chip.running == (row.0 matches RightSurface::Subagent(id) && running.contains(id))
}

fn listed(ids: &Vec<u64>, id: u64) -> (r: bool)
    ensures
        r == ids@.contains(id),
{
    let mut i: usize = 0;
    while i < ids.len()
        invariant
            i <= ids@.len(),
            forall|j: int| 0 <= j < i ==> ids@[j] != id,
        decreases ids.len() - i,
    {
        if ids[i] == id {
            return true;
        }
        i = i + 1;
    }
    false
}

/// The strip of tabs, in the order of the rows; `running` are the subagents at
/// work.
pub fn tab_strip(rows: &Vec<(RightSurface, String)>, active: RightSurface, running: &Vec<u64>) -> (r:
    Vec<TabChip>)
    ensures
        r@.len() == rows@.len(),
        forall|i: int|
            0 <= i < r@.len() ==> chip_for(
                #[trigger] r@[i],
                row_view(rows@[i]),
                active,
                running@,
            ),
{
    let mut out: Vec<TabChip> = Vec::new();
    let mut i: usize = 0;
    while i < rows.len()
        invariant
            i <= rows@.len(),
            out@.len() == i,
            forall|j: int|
                0 <= j < i ==> chip_for(#[trigger] out@[j], row_view(rows@[j]), active, running@),
        decreases rows.len() - i,
    {
        let surface = rows[i].0;
        let at_work = match surface {
            RightSurface::Subagent(id) => listed(running, id),
            _ => false,
        };
        out.push(
            TabChip {
                surface,
                title: rows[i].1.clone(),
                icon: tab_icon(surface),
                active: surface == active,
                running: at_work,
            },
        );
        i = i + 1;
    }
    out
}

/// Whether the strip shows the button that adds a tab: only behind a tab, since
/// the picker of an empty pane offers all of them already.
pub fn shows_add(rows: &Vec<(RightSurface, String)>) -> (r: bool)
    ensures
        r == (rows@.len() > 0),
{
    rows.len() > 0
}

/// What can be opened in the pane.
#[derive(Debug, Clone, Copy, PartialEq, Eq, Structural)]
pub enum SurfaceOffer {
    Terminal,
    Git,
}

/// What can be opened in the pane: a terminal, and a diff where there is a
/// repository.
pub fn surface_offers(git: bool) -> (r: Vec<SurfaceOffer>)
    ensures
        r@ == if git {
            seq![SurfaceOffer::Terminal, SurfaceOffer::Git]
        } else {
            seq![SurfaceOffer::Terminal]
        },
{
    let mut r: Vec<SurfaceOffer> = Vec::new();
    r.push(SurfaceOffer::Terminal);
    if git {
        r.push(SurfaceOffer::Git);
        assert(r@ =~= seq![SurfaceOffer::Terminal, SurfaceOffer::Git]);
    } else {
        assert(r@ =~= seq![SurfaceOffer::Terminal]);
    }
    r
}

/// Whether a transcript is still being written: its last entry streams.
pub fn is_running(entries: &Vec<SessionMessageEntry>) -> (r: bool)
    ensures
        r == (entries@.len() > 0 && entries@.last().status == Some(MessageStatus::Streaming)),
{
    if entries.len() == 0 {
        return false;
    }
    match entries[entries.len() - 1].status {
        Some(MessageStatus::Streaming) => true,
        _ => false,
    }
}

/// The key of a finished subagent's transcript: `{chat}/{document}`.
pub fn snapshot_ref(chat_id: &str, doc_id: &str) -> (r: String)
    ensures
        r@ == chat_id@ + "/"@ + doc_id@,
{
    let mut s = chat_id.to_owned();
    crate::text::push_text(&mut s, "/");
    crate::text::push_text(&mut s, doc_id);
    s
}

/// What a chat is doing.
#[derive(Debug, Clone, Copy, PartialEq, Eq, Structural)]
pub enum Indicator {
    Working,
    AwaitingInput,
    Errored,
    Idle,
}

/// What the strip over the composer says.
#[derive(Debug, Clone, Copy, PartialEq, Eq, Structural)]
pub enum StatusLine {
    Empty,
    RunFailed,
    Sending,
}

/// What the strip over the composer says: of a run that failed, and of a
/// message on its way before the run is known. The transcript and the question
/// speak for themselves.
pub fn status_strip(selected: bool, indicator: Indicator, sending: bool) -> (r: StatusLine)
    ensures
        r == if !selected {
            StatusLine::Empty
        } else if indicator == Indicator::Errored {
            StatusLine::RunFailed
        } else if indicator == Indicator::Idle && sending {
            StatusLine::Sending
        } else {
            StatusLine::Empty
        },
{
    if !selected {
        return StatusLine::Empty;
    }
    match indicator {
        Indicator::Errored => StatusLine::RunFailed,
        Indicator::Idle => if sending {
            StatusLine::Sending
        } else {
            StatusLine::Empty
        },
        _ => StatusLine::Empty,
    }
}

// ---------------------------------------------------------------------------
// Laws
// ---------------------------------------------------------------------------

proof fn lemma_rows_stored(
    stored: Seq<RightSurface>,
    diffs: Seq<(u64, String)>,
    terminals: Seq<(u64, String)>,
    subagents: Seq<SubagentView>,
    i: int,
)
    requires
        0 <= i < surface_rows(stored, diffs, terminals, subagents).len(),
    ensures
        ({
            let row = surface_rows(stored, diffs, terminals, subagents)[i];
            &&& stored.contains(row.0)
            &&& surface_title(row.0, diffs, terminals, subagents) == Some(row.1)
        }),
    decreases stored.len(),
{
    let before = surface_rows(stored.drop_last(), diffs, terminals, subagents);
    let row = surface_rows(stored, diffs, terminals, subagents)[i];
    if i < before.len() {
        lemma_rows_stored(stored.drop_last(), diffs, terminals, subagents, i);
        let j = choose|j: int| 0 <= j < stored.drop_last().len() && stored.drop_last()[j] == row.0;
        assert(stored[j] == row.0);
    } else {
        assert(stored[stored.len() - 1] == row.0);
    }
}

/// What shows is a tab of the chat whose content is there, or the picker; and
/// the picker shows exactly where no tab does.
pub proof fn law_no_dead_tab_shows(
    picked: RightSurface,
    stored: Seq<RightSurface>,
    diffs: Seq<(u64, String)>,
    terminals: Seq<(u64, String)>,
    subagents: Seq<SubagentView>,
)
    ensures
        ({
            let rows = surface_rows(stored, diffs, terminals, subagents);
            let shown = resolved(picked, rows);
            &&& (shown == RightSurface::Picker) == (rows.len() == 0)
            &&& rows.len() > 0 ==> stored.contains(shown) && surface_title(
                shown,
                diffs,
                terminals,
                subagents,
            ) is Some
        }),
{
    let rows = surface_rows(stored, diffs, terminals, subagents);
    if rows.len() > 0 {
        lemma_rows_stored(stored, diffs, terminals, subagents, 0);
        if picked != RightSurface::Picker && shows(rows, picked) {
            let i = choose|i: int| 0 <= i < rows.len() && (#[trigger] rows[i]).0 == picked;
            lemma_rows_stored(stored, diffs, terminals, subagents, i);
        }
    }
}

/// Moving a tab keeps all of them, and moving it back restores their order.
pub proof fn law_reorder_keeps_the_tabs(s: Seq<RightSurface>, from: int, to: int)
    requires
        0 <= from < s.len(),
        0 <= to < s.len(),
    ensures
        moved(s, from, to).len() == s.len(),
        moved(s, from, to)[to] == s[from],
        moved(s, from, to).to_multiset() == s.to_multiset(),
        moved(moved(s, from, to), to, from) == s,
{
    let rest = s.remove(from);
    assert(rest =~= s.take(from) + s.skip(from + 1));
    assert(moved(s, from, to) =~= rest.take(to) + seq![s[from]] + rest.skip(to));
    assert(moved(s, from, to).remove(to) =~= rest);
    assert(rest.insert(from, s[from]) =~= s);
    vstd::seq_lib::to_multiset_insert(rest, from, s[from]);
    vstd::seq_lib::to_multiset_insert(rest, to, s[from]);
}

/// A closed tab is gone from its chat, another chat's tabs stay, and the closed
/// one is no longer picked.
pub proof fn law_closed_tab_is_gone(
    s: PaneView,
    key: Seq<char>,
    other: Seq<char>,
    surface: RightSurface,
)
    ensures
        !s.without(key, surface).tabs_for(key).contains(surface),
        other != key ==> s.without(key, surface).tabs_for(other) == s.tabs_for(other),
        surface != RightSurface::Picker ==> s.without(key, surface).panels_for(key).right_active
            != surface,
{
    broadcast use vstd::seq_lib::group_filter_ensures;

    let left = s.tabs_for(key).filter(other_than(surface));
    if s.tabs.contains_key(key) && left.contains(surface) {
        let i = choose|i: int| 0 <= i < left.len() && left[i] == surface;
        assert(left[i] != surface);
    }
}

/// Opening a document that has a tab shows that tab and adds none; so opening it
/// twice is opening it once.
pub proof fn law_a_document_opens_one_tab(
    s: PaneView,
    key: Seq<char>,
    doc: Seq<char>,
    title: Seq<char>,
    again: Seq<char>,
)
    requires
        s.wf(),
        s.open(key, true),
    ensures
        ({
            let once = s.with_subagent(key, true, doc, title);
            let twice = once.with_subagent(key, true, doc, again);
            &&& twice == once
            &&& once.panels_for(key).right_active is Subagent
        }),
{
    let once = s.with_subagent(key, true, doc, title);
    let twice = once.with_subagent(key, true, doc, again);
    lemma_first_where(s.subagents, has_doc(doc));
    lemma_first_where(once.subagents, has_doc(doc));
    match first_where(s.subagents, has_doc(doc)) {
        Some(i) => {
            assert(once.subagents == s.subagents);
            assert(twice.panels =~= once.panels);
        },
        None => {
            let n = s.subagents.len() as int;
            assert(has_doc(doc)(once.subagents[n]));
            let i = first_where(once.subagents, has_doc(doc))->0;
            if i < n {
                assert(has_doc(doc)(s.subagents[i]));
            }
            assert(twice.panels =~= once.panels);
        },
    }
}

/// A pane that is closed is not expanded when it opens again.
pub proof fn law_closing_ends_a_takeover(s: PaneView, key: Seq<char>)
    requires
        s.panels_for(key).changes_open,
    ensures
        !s.toggled(key).expanded,
        !s.toggled(key).toggled(key).expanded,
{
}

} // verus!
