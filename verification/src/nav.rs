//! Routes, settings sections, and browser-style navigation history.
use vstd::hash_map::StringHashMap;
use vstd::prelude::*;

verus! {

/// The settings sections.
#[derive(Debug, Clone, Copy, PartialEq, Eq, Structural)]
pub enum SettingsSection {
    Devices,
    /// Which harnesses the composer offers.
    Harnesses,
    /// The accounts of each provider.
    Agents,
    Appearance,
    Notifications,
    Shortcuts,
    Archived,
}

impl SettingsSection {
    /// Every section, in the order of the sidebar.
    pub const ALL: [SettingsSection; 7] = [
        SettingsSection::Devices,
        SettingsSection::Harnesses,
        SettingsSection::Agents,
        SettingsSection::Appearance,
        SettingsSection::Notifications,
        SettingsSection::Shortcuts,
        SettingsSection::Archived,
    ];

    /// The section's title.
    pub open spec fn title(self) -> Seq<char> {
        match self {
            SettingsSection::Devices => "Devices"@,
            SettingsSection::Harnesses => "Agents"@,
            SettingsSection::Agents => "Accounts"@,
            SettingsSection::Appearance => "Appearance"@,
            SettingsSection::Notifications => "Notifications"@,
            SettingsSection::Shortcuts => "Shortcuts"@,
            SettingsSection::Archived => "Archived sessions"@,
        }
    }

    /// The label in the sidebar and the header.
    pub fn label(self) -> (r: &'static str)
        ensures
            r@ == self.title(),
    {
        match self {
            SettingsSection::Devices => "Devices",
            SettingsSection::Harnesses => "Agents",
            SettingsSection::Agents => "Accounts",
            SettingsSection::Appearance => "Appearance",
            SettingsSection::Notifications => "Notifications",
            SettingsSection::Shortcuts => "Shortcuts",
            SettingsSection::Archived => "Archived sessions",
        }
    }
}

/// What the main outlet shows.
#[derive(Debug, Clone, Copy, PartialEq, Eq, Structural)]
pub enum Route {
    Chat,
    Settings(SettingsSection),
}

/// One tab of the right pane, by its handle. `Picker` is the empty surface
/// chooser.
#[derive(Debug, Clone, Copy, PartialEq, Eq, Structural)]
pub enum RightSurface {
    Picker,
    Diff(u64),
    Terminal(u64),
    /// A subagent's transcript.
    Subagent(u64),
}

impl Default for RightSurface {
    fn default() -> (r: Self)
        ensures
            r == RightSurface::Picker,
    {
        RightSurface::Picker
    }
}

/// A chat's panels.
#[derive(Debug, Clone, Copy, PartialEq, Eq, Structural)]
pub struct ChatPanels {
    pub terminal_open: bool,
    /// Whether the right pane shows.
    pub changes_open: bool,
    /// Which of the right pane's tabs shows.
    pub right_active: RightSurface,
}

/// The panels of a chat that was never touched: everything closed.
pub open spec fn closed_panels() -> ChatPanels {
    ChatPanels {
        terminal_open: false,
        changes_open: false,
        right_active: RightSurface::Picker,
    }
}

impl Default for ChatPanels {
    fn default() -> (r: Self)
        ensures
            r == closed_panels(),
    {
        ChatPanels {
            terminal_open: false,
            changes_open: false,
            right_active: RightSurface::Picker,
        }
    }
}

/// The panels of every chat, by chat id; the new-chat canvas has the empty id.
pub struct SessionPanels {
    map: StringHashMap<ChatPanels>,
}

impl View for SessionPanels {
    type V = Map<Seq<char>, ChatPanels>;

    closed spec fn view(&self) -> Map<Seq<char>, ChatPanels> {
        self.map@
    }
}

/// The panels that `m` has for `key`.
pub open spec fn panels_for(m: Map<Seq<char>, ChatPanels>, key: Seq<char>) -> ChatPanels {
    if m.contains_key(key) {
        m[key]
    } else {
        closed_panels()
    }
}

/// `m` with the terminal of `key` toggled.
pub open spec fn terminal_toggled(m: Map<Seq<char>, ChatPanels>, key: Seq<char>) -> Map<
    Seq<char>,
    ChatPanels,
> {
    let p = panels_for(m, key);
    m.insert(key, ChatPanels { terminal_open: !p.terminal_open, ..p })
}

/// `m` with the right pane of `key` toggled.
pub open spec fn changes_toggled(m: Map<Seq<char>, ChatPanels>, key: Seq<char>) -> Map<
    Seq<char>,
    ChatPanels,
> {
    let p = panels_for(m, key);
    m.insert(key, ChatPanels { changes_open: !p.changes_open, ..p })
}

impl Default for SessionPanels {
    fn default() -> (r: Self)
        ensures
            r@ == Map::<Seq<char>, ChatPanels>::empty(),
    {
        SessionPanels { map: StringHashMap::new() }
    }
}

impl SessionPanels {
    /// The panels of `key`, everything closed where it was never touched.
    pub fn get(&self, key: &str) -> (r: ChatPanels)
        ensures
            r == panels_for(self@, key@),
    {
        match self.map.get(key) {
            Some(p) => *p,
            None => ChatPanels::default(),
        }
    }

    /// Flips the terminal of `key` and returns whether it is open now.
    pub fn toggle_terminal(&mut self, key: &str) -> (r: bool)
        ensures
            final(self)@ == terminal_toggled(old(self)@, key@),
            r == panels_for(final(self)@, key@).terminal_open,
    {
        let mut p = self.get(key);
        p.terminal_open = !p.terminal_open;
        self.map.insert(key.to_owned(), p);
        p.terminal_open
    }

    /// Flips the right pane of `key` and returns whether it is open now.
    pub fn toggle_changes(&mut self, key: &str) -> (r: bool)
        ensures
            final(self)@ == changes_toggled(old(self)@, key@),
            r == panels_for(final(self)@, key@).changes_open,
    {
        let mut p = self.get(key);
        p.changes_open = !p.changes_open;
        self.map.insert(key.to_owned(), p);
        p.changes_open
    }

    /// Replaces the panels of `key`.
    pub fn set(&mut self, key: &str, p: ChatPanels)
        ensures
            final(self)@ == old(self)@.insert(key@, p),
    {
        self.map.insert(key.to_owned(), p);
    }

    /// Replaces the panels of `key` by what `f` makes of them.
    pub fn update(&mut self, key: &str, f: impl FnOnce(ChatPanels) -> ChatPanels)
        requires
            call_requires(f, (panels_for(old(self)@, key@),)),
        ensures
            exists|p: ChatPanels|
                #![trigger old(self)@.insert(key@, p)]
                call_ensures(f, (panels_for(old(self)@, key@),), p) && final(self)@ == old(
                    self,
                )@.insert(key@, p),
    {
        let p = f(self.get(key));
        self.map.insert(key.to_owned(), p);
    }
}

/// Toggling the terminal twice leaves every chat's panels as they were.
pub proof fn law_terminal_toggles_back(
    m: Map<Seq<char>, ChatPanels>,
    key: Seq<char>,
    other: Seq<char>,
)
    ensures
        panels_for(terminal_toggled(terminal_toggled(m, key), key), other) == panels_for(m, other),
{
}

/// Toggling the right pane twice leaves every chat's panels as they were.
pub proof fn law_changes_toggle_back(
    m: Map<Seq<char>, ChatPanels>,
    key: Seq<char>,
    other: Seq<char>,
)
    ensures
        panels_for(changes_toggled(changes_toggled(m, key), key), other) == panels_for(m, other),
{
}

/// Toggling one chat's panels leaves the other chats alone, and the panel that
/// was not toggled.
pub proof fn law_toggles_are_per_chat(
    m: Map<Seq<char>, ChatPanels>,
    key: Seq<char>,
    other: Seq<char>,
)
    requires
        key != other,
    ensures
        panels_for(terminal_toggled(m, key), other) == panels_for(m, other),
        panels_for(changes_toggled(m, key), other) == panels_for(m, other),
        panels_for(terminal_toggled(m, key), key).changes_open == panels_for(m, key).changes_open,
        panels_for(changes_toggled(m, key), key).terminal_open == panels_for(m, key).terminal_open,
{
}

// ---------------------------------------------------------------------------
// History
// ---------------------------------------------------------------------------

/// A visited route.
#[derive(Debug)]
pub enum NavEntry {
    /// A chat, by its id; the empty id is the new-chat canvas.
    Chat(String),
    Settings(SettingsSection),
}

/// What a [`NavEntry`] holds.
#[verifier::ext_equal]
pub enum EntryView {
    Chat(Seq<char>),
    Settings(SettingsSection),
}

impl View for NavEntry {
    type V = EntryView;

    open spec fn view(&self) -> EntryView {
        match self {
            NavEntry::Chat(id) => EntryView::Chat(id@),
            NavEntry::Settings(s) => EntryView::Settings(*s),
        }
    }
}

impl Clone for NavEntry {
    fn clone(&self) -> (r: Self)
        ensures
            r == *self,
    {
        match self {
            NavEntry::Chat(id) => NavEntry::Chat(id.clone()),
            NavEntry::Settings(s) => NavEntry::Settings(*s),
        }
    }
}

impl NavEntry {
    /// Whether two entries are the same route.
    pub fn same(&self, other: &NavEntry) -> (r: bool)
        ensures
            r == (self@ == other@),
    {
        match (self, other) {
            (NavEntry::Chat(a), NavEntry::Chat(b)) => *a == *b,
            (NavEntry::Settings(a), NavEntry::Settings(b)) => *a == *b,
            _ => false,
        }
    }
}

/// Navigation history, as a browser keeps it.
#[derive(Debug)]
pub struct NavHistory {
    entries: Vec<NavEntry>,
    index: usize,
}

/// The visited routes and the place among them.
#[verifier::ext_equal]
pub struct NavView {
    pub entries: Seq<EntryView>,
    pub index: nat,
}

impl View for NavHistory {
    type V = NavView;

    closed spec fn view(&self) -> NavView {
        NavView {
            entries: Seq::new(self.entries@.len(), |i: int| self.entries@[i]@),
            index: self.index as nat,
        }
    }
}

impl NavView {
    /// The place is one of the visited routes.
    pub open spec fn wf(self) -> bool {
        self.index < self.entries.len()
    }

    /// The route shown.
    pub open spec fn current(self) -> EntryView {
        self.entries[self.index as int]
    }

    /// After going to `entry`: nothing changes where it is shown already; else
    /// it follows the route shown, and what lay ahead is gone.
    pub open spec fn pushed(self, entry: EntryView) -> NavView {
        if self.current() == entry {
            self
        } else {
            NavView {
                entries: self.entries.take(self.index as int + 1).push(entry),
                index: self.index + 1,
            }
        }
    }

    /// After showing `entry` in place of the route shown.
    pub open spec fn replaced(self, entry: EntryView) -> NavView {
        NavView { entries: self.entries.update(self.index as int, entry), index: self.index }
    }

    /// Whether there is a route behind.
    pub open spec fn has_back(self) -> bool {
        self.index > 0
    }

    /// Whether there is a route ahead.
    pub open spec fn has_forward(self) -> bool {
        self.index + 1 < self.entries.len()
    }

    /// One route back, where there is one.
    pub open spec fn stepped_back(self) -> NavView {
        if self.has_back() {
            NavView { entries: self.entries, index: (self.index - 1) as nat }
        } else {
            self
        }
    }

    /// One route forward, where there is one.
    pub open spec fn stepped_forward(self) -> NavView {
        if self.has_forward() {
            NavView { entries: self.entries, index: self.index + 1 }
        } else {
            self
        }
    }
}

/// The entry of an optional step.
pub open spec fn opt_entry(e: Option<NavEntry>) -> Option<EntryView> {
    match e {
        Some(e) => Some(e@),
        None => None,
    }
}

impl NavHistory {
    /// A history of one route.
    pub fn new(initial: NavEntry) -> (r: Self)
        ensures
            r@.wf(),
            r@ == (NavView { entries: seq![initial@], index: 0 }),
    {
        let mut entries: Vec<NavEntry> = Vec::new();
        entries.push(initial);
        let r = NavHistory { entries, index: 0 };
        assert(r@.entries =~= seq![initial@]);
        r
    }

    /// The route shown.
    pub fn current(&self) -> (r: &NavEntry)
        requires
            self@.wf(),
        ensures
            r@ == self@.current(),
    {
        &self.entries[self.index]
    }

    /// Records a route change. Going to the route shown changes nothing; any
    /// other route follows it, and the routes ahead are dropped.
    pub fn push(&mut self, entry: NavEntry)
        requires
            old(self)@.wf(),
        ensures
            final(self)@.wf(),
            final(self)@ == old(self)@.pushed(entry@),
    {
        let ghost before = self@;
        if self.current().same(&entry) {
            return;
        }
        assert(self.index < self.entries.len());
        self.entries.truncate(self.index + 1);
        self.entries.push(entry);
        self.index = self.index + 1;
        assert(self@.entries =~= before.entries.take(before.index as int + 1).push(entry@));
    }

    /// Shows `entry` in place of the route shown.
    pub fn replace(&mut self, entry: NavEntry)
        requires
            old(self)@.wf(),
        ensures
            final(self)@.wf(),
            final(self)@ == old(self)@.replaced(entry@),
    {
        let ghost before = self@;
        let i: usize = self.index;
        self.entries[i] = entry;
        assert(self@.entries =~= before.entries.update(before.index as int, entry@));
    }

    /// Whether there is a route behind.
    pub fn can_back(&self) -> (r: bool)
        requires
            self@.wf(),
        ensures
            r == self@.has_back(),
    {
        self.index > 0
    }

    /// Whether there is a route ahead.
    pub fn can_forward(&self) -> (r: bool)
        requires
            self@.wf(),
        ensures
            r == self@.has_forward(),
    {
        self.index < self.entries.len() - 1
    }

    /// Goes back one route and returns it, or nothing at the first one.
    pub fn back(&mut self) -> (r: Option<NavEntry>)
        requires
            old(self)@.wf(),
        ensures
            final(self)@.wf(),
            final(self)@ == old(self)@.stepped_back(),
            opt_entry(r) == if old(self)@.has_back() {
                Some(final(self)@.current())
            } else {
                None
            },
    {
        if !self.can_back() {
            return None;
        }
        self.index = self.index - 1;
        Some(self.current().clone())
    }

    /// Goes forward one route and returns it, or nothing at the last one.
    pub fn forward(&mut self) -> (r: Option<NavEntry>)
        requires
            old(self)@.wf(),
        ensures
            final(self)@.wf(),
            final(self)@ == old(self)@.stepped_forward(),
            opt_entry(r) == if old(self)@.has_forward() {
                Some(final(self)@.current())
            } else {
                None
            },
    {
        if !self.can_forward() {
            return None;
        }
        assert(self.index < self.entries.len());
        self.index = self.index + 1;
        Some(self.current().clone())
    }

    /// How many routes the history holds.
    pub fn len(&self) -> (r: usize)
        ensures
            r == self@.entries.len(),
    {
        self.entries.len()
    }
}

/// Going back and then forward comes to the same place.
pub proof fn law_back_then_forward(h: NavView)
    requires
        h.wf(),
        h.has_back(),
    ensures
        h.stepped_back().stepped_forward() == h,
{
}

/// Going forward and then back comes to the same place.
pub proof fn law_forward_then_back(h: NavView)
    requires
        h.wf(),
        h.has_forward(),
    ensures
        h.stepped_forward().stepped_back() == h,
{
}

/// After a route change the new route shows, nothing lies ahead, and going
/// back shows the route that was left.
pub proof fn law_push_starts_a_branch(h: NavView, entry: EntryView)
    requires
        h.wf(),
        h.current() != entry,
    ensures
        h.pushed(entry).current() == entry,
        !h.pushed(entry).has_forward(),
        h.pushed(entry).stepped_back().current() == h.current(),
        h.pushed(entry).entries.take(h.index as int + 1) == h.entries.take(h.index as int + 1),
{
    assert(h.pushed(entry).entries.take(h.index as int + 1) =~= h.entries.take(
        h.index as int + 1,
    ));
}

/// Walking the history changes none of its routes.
pub proof fn law_walking_keeps_routes(h: NavView)
    ensures
        h.stepped_back().entries == h.entries,
        h.stepped_forward().entries == h.entries,
{
}

/// A route shown in place of another leaves no way back to that other.
pub proof fn law_replace_keeps_length(h: NavView, entry: EntryView)
    requires
        h.wf(),
    ensures
        h.replaced(entry).current() == entry,
        h.replaced(entry).entries.len() == h.entries.len(),
        h.replaced(entry).has_back() == h.has_back(),
        h.replaced(entry).has_forward() == h.has_forward(),
{
}

} // verus!
