//! The application state machine: key handling, screen transitions, selection, and the
//! background work requested from the host loop, whose outcomes are fed back in.

use vstd::prelude::*;
use crate::error::{OpcError, OpcErrorOf, OpcResult, spec_error_message};
use crate::text::{concat_str, spec_decimal, spec_trim, str_eq, str_trim, string_pop, string_push, u64_to_string, usize_to_string};
use crate::types::{OpcValueOf, OpcValueView, parse_value, spec_parse_value, spec_quality_major};
use crate::tui::state::{
    AppAction, AutoRefresher, CurrentScreen, DialogState, NavigationState, SearchEngine, spec_next_index, spec_prev_index,
};
use crate::types::{OpcValue, TagValue, TagValues, WriteResult};

verus! {

/// Number of status messages kept.
pub const MAX_MESSAGES: usize = 10;

/// Rows moved by a page up or down.
pub const PAGE_SIZE: usize = 20;

/// Largest number of tags gathered by one browse.
pub const MAX_BROWSE_TAGS: usize = 10000;

/// Milliseconds between automatic re-reads of the shown values.
pub const AUTO_REFRESH_INTERVAL_MS: u64 = 1000;

/// Seconds a server enumeration, browse or read may take.
pub const OPC_TIMEOUT_SECS: u64 = 300;

/// Seconds a write may take.
pub const OPC_TIMEOUT_SECS_WRITE: u64 = 10;

/// Background work the host loop is asked to run; its outcome is fed back through the
/// matching `on_*_result` method.
#[derive(Debug)]
pub enum Effect {
    /// Enumerate the servers on a host.
    FetchServers {
        /// Host to enumerate.
        host: String,
    },
    /// Browse the tags of a server.
    BrowseTags {
        /// Server to browse.
        server: String,
        /// Largest number of tags to gather.
        max_tags: usize,
    },
    /// Read the values of tags.
    ReadValues {
        /// Server to read.
        server: String,
        /// Tags to read, in order.
        tag_ids: Vec<String>,
    },
    /// Write a value to a tag.
    WriteValue {
        /// Server written to.
        server: String,
        /// Tag written.
        tag_id: String,
        /// Value written.
        value: OpcValue,
    },
    /// Abandon all background work.
    CancelAll,
}

/// How a background task ended.
pub enum TaskOutcome<T> {
    /// It delivered a result.
    Ready(OpcResult<T>),
    /// It ended without delivering one.
    Closed,
}

/// Which background tasks have results outstanding.
#[derive(Debug)]
pub struct PendingTasks {
    /// A server enumeration.
    pub fetch: bool,
    /// A browse.
    pub browse: bool,
    /// A read.
    pub read: bool,
    /// A write.
    pub write: bool,
}

/// What is shown: servers, tags and their selection, values, the highlighted row, and
/// the status messages (oldest first).
#[derive(Debug)]
pub struct ViewState {
    /// Servers found.
    pub servers: Vec<String>,
    /// Tags browsed.
    pub tags: Vec<String>,
    /// Tags selected for reading, each once.
    pub selected_tags: Vec<String>,
    /// Values read.
    pub tag_values: TagValues,
    /// Highlighted row.
    pub selected_index: Option<usize>,
    /// Row highlighted in the list widget.
    pub list_selected: Option<usize>,
    /// Row highlighted in the table widget.
    pub table_selected: Option<usize>,
    /// Status messages, oldest first.
    pub messages: std::collections::VecDeque<String>,
}

/// The characters of each string.
pub open spec fn strs(s: Seq<String>) -> Seq<Seq<char>> {
    s.map_values(|t: String| t@)
}

/// No tag occurs twice.
pub open spec fn no_duplicates(s: Seq<Seq<char>>) -> bool {
    forall|i: int, j: int| 0 <= i < j < s.len() ==> #[trigger] s[i] != #[trigger] s[j]
}

/// The message log after `m` is added to `log`: the oldest message is dropped when
/// [`MAX_MESSAGES`] are already kept.
pub open spec fn ring_push(log: Seq<String>, m: String) -> Seq<String> {
    (if log.len() >= MAX_MESSAGES { log.drop_first() } else { log }).push(m)
}

/// The message log after each of `ms` is added to `log`, in order.
pub open spec fn ring_push_all(log: Seq<String>, ms: Seq<String>) -> Seq<String>
    decreases ms.len(),
{
    if ms.len() == 0 {
        log
    } else {
        ring_push_all(ring_push(log, ms[0]), ms.drop_first())
    }
}

/// The last `n` elements of `s` (all of them when it has fewer).
pub open spec fn last_n<T>(s: Seq<T>, n: nat) -> Seq<T> {
    if s.len() <= n { s } else { s.subrange(s.len() - n, s.len() as int) }
}

/// Adding messages one at a time to a log of at most [`MAX_MESSAGES`] keeps exactly the
/// latest [`MAX_MESSAGES`] messages of the log followed by the added ones, oldest first.
pub proof fn lemma_ring_keeps_latest(log: Seq<String>, ms: Seq<String>)
    requires
        log.len() <= MAX_MESSAGES,
    ensures
        ring_push_all(log, ms) == last_n(log + ms, MAX_MESSAGES as nat),
    decreases ms.len(),
{
    if ms.len() == 0 {
        assert(log + ms =~= log);
    } else {
        let next = ring_push(log, ms[0]);
        lemma_ring_keeps_latest(next, ms.drop_first());
        let whole = log + ms;
        let rest = next + ms.drop_first();
        if log.len() >= MAX_MESSAGES {
            assert(rest =~= whole.subrange(1, whole.len() as int));
        } else {
            assert(rest =~= whole);
        }
        assert(last_n(rest, MAX_MESSAGES as nat) =~= last_n(whole, MAX_MESSAGES as nat));
    }
}

impl ViewState {
    /// At most [`MAX_MESSAGES`] messages, and each selected tag once.
    pub open spec fn wf(&self) -> bool {
        &&& self.messages@.len() <= MAX_MESSAGES
        &&& no_duplicates(strs(self.selected_tags@))
    }

    /// An empty view.
    pub fn new() -> (r: Self)
        ensures
            r.wf(),
            r.servers@.len() == 0,
            r.tags@.len() == 0,
            r.selected_tags@.len() == 0,
            r.tag_values.values@.len() == 0,
            r.selected_index is None,
            r.list_selected is None,
            r.table_selected is None,
            r.messages@.len() == 0,
    {
        let r = ViewState {
            servers: Vec::new(),
            tags: Vec::new(),
            selected_tags: Vec::new(),
            tag_values: TagValues::new(Vec::new()),
            selected_index: None,
            list_selected: None,
            table_selected: None,
            messages: std::collections::VecDeque::new(),
        };
        assert(strs(r.selected_tags@) =~= Seq::<Seq<char>>::empty());
        r
    }

    /// Appends a status message, dropping the oldest when [`MAX_MESSAGES`] are kept.
    pub fn add_message(&mut self, message: String)
        requires
            old(self).wf(),
        ensures
            final(self).wf(),
            final(self).messages@ == ring_push(old(self).messages@, message),
            final(self).servers == old(self).servers,
            final(self).tags == old(self).tags,
            final(self).selected_tags == old(self).selected_tags,
            final(self).tag_values == old(self).tag_values,
            final(self).selected_index == old(self).selected_index,
            final(self).list_selected == old(self).list_selected,
            final(self).table_selected == old(self).table_selected,
    {
        if self.messages.len() >= MAX_MESSAGES {
            let _ = self.messages.pop_front();
        }
        self.messages.push_back(message);
    }

    /// Position of `tag_id` among the selected tags.
    fn find_selected(&self, tag_id: &str) -> (r: Option<usize>)
        ensures
            match r {
                Some(i) => i < self.selected_tags@.len() && self.selected_tags@[i as int]@ == tag_id@,
                None => !strs(self.selected_tags@).contains(tag_id@),
            },
    {
        let mut i: usize = 0;
        while i < self.selected_tags.len()
            invariant
                i <= self.selected_tags@.len(),
                forall|j: int| 0 <= j < i ==> self.selected_tags@[j]@ != tag_id@,
            decreases self.selected_tags@.len() - i,
        {
            if str_eq(self.selected_tags[i].as_str(), tag_id) {
                return Some(i);
            }
            i = i + 1;
        }
        assert(!strs(self.selected_tags@).contains(tag_id@)) by {
            if strs(self.selected_tags@).contains(tag_id@) {
                let k = choose|k: int| 0 <= k < strs(self.selected_tags@).len() && strs(self.selected_tags@)[k] == tag_id@;
                assert(self.selected_tags@[k]@ == tag_id@);
            }
        }
        None
    }

    /// Whether `tag_id` is selected.
    pub fn is_selected(&self, tag_id: &str) -> (r: bool)
        ensures
            r == strs(self.selected_tags@).contains(tag_id@),
    {
        match self.find_selected(tag_id) {
            Some(i) => {
                assert(strs(self.selected_tags@)[i as int] == tag_id@);
                true
            },
            None => false,
        }
    }

    /// Selects `tag_id` if it was not selected, deselects it otherwise; returns whether
    /// it is selected now.
    pub fn toggle_selection(&mut self, tag_id: &str) -> (r: bool)
        requires
            old(self).wf(),
        ensures
            final(self).wf(),
            r == !strs(old(self).selected_tags@).contains(tag_id@),
            strs(final(self).selected_tags@).contains(tag_id@) == r,
            forall|t: Seq<char>| t != tag_id@ ==> (strs(final(self).selected_tags@).contains(t) == strs(old(self).selected_tags@).contains(t)),
            final(self).messages == old(self).messages,
            final(self).tags == old(self).tags,
            final(self).servers == old(self).servers,
            final(self).tag_values == old(self).tag_values,
            final(self).selected_index == old(self).selected_index,
            final(self).list_selected == old(self).list_selected,
            final(self).table_selected == old(self).table_selected,
    {
        let ghost before = strs(self.selected_tags@);
        match self.find_selected(tag_id) {
            Some(i) => {
                let _ = self.selected_tags.remove(i);
                proof {
                    let after = strs(self.selected_tags@);
                    assert(after =~= before.remove(i as int));
                    assert(before[i as int] == tag_id@);
                    assert forall|a: int, b: int| 0 <= a < b < after.len() implies #[trigger] after[a] != #[trigger] after[b] by {
                        let a2 = if a < i { a } else { a + 1 };
                        let b2 = if b < i { b } else { b + 1 };
                        assert(after[a] == before[a2]);
                        assert(after[b] == before[b2]);
                    }
                    if after.contains(tag_id@) {
                        let k = choose|k: int| 0 <= k < after.len() && after[k] == tag_id@;
                        let k2 = if k < i { k } else { k + 1 };
                        assert(before[k2] == tag_id@);
                    }
                    assert forall|t: Seq<char>| t != tag_id@ implies after.contains(t) == before.contains(t) by {
                        if after.contains(t) {
                            let k = choose|k: int| 0 <= k < after.len() && after[k] == t;
                            let k2 = if k < i { k } else { k + 1 };
                            assert(before[k2] == t);
                        }
                        if before.contains(t) {
                            let k = choose|k: int| 0 <= k < before.len() && before[k] == t;
                            assert(k != i);
                            let k2 = if k < i { k } else { k - 1 };
                            assert(after[k2] == t);
                        }
                    }
                }
                false
            },
            None => {
                self.selected_tags.push(String::from_str(tag_id));
                proof {
                    let after = strs(self.selected_tags@);
                    assert(after =~= before.push(tag_id@));
                    assert forall|a: int, b: int| 0 <= a < b < after.len() implies #[trigger] after[a] != #[trigger] after[b] by {
                        if b < before.len() {
                            assert(after[a] == before[a]);
                            assert(after[b] == before[b]);
                        } else {
                            assert(after[a] == before[a]);
                        }
                    }
                    assert(after[after.len() - 1] == tag_id@);
                    assert forall|t: Seq<char>| t != tag_id@ implies after.contains(t) == before.contains(t) by {
                        if after.contains(t) {
                            let k = choose|k: int| 0 <= k < after.len() && after[k] == t;
                            assert(before[k] == t);
                        }
                        if before.contains(t) {
                            let k = choose|k: int| 0 <= k < before.len() && before[k] == t;
                            assert(after[k] == t);
                        }
                    }
                }
                true
            },
        }
    }

    /// Selects every browsed tag.
    pub fn select_all(&mut self)
        requires
            old(self).wf(),
        ensures
            final(self).wf(),
            forall|i: int| 0 <= i < old(self).tags@.len() ==> strs(final(self).selected_tags@).contains(
                #[trigger] old(self).tags@[i]@,
            ),
            final(self).tags == old(self).tags,
            final(self).messages == old(self).messages,
    {
        let mut i: usize = 0;
        while i < self.tags.len()
            invariant
                self.wf(),
                self.tags == old(self).tags,
                self.messages == old(self).messages,
                i <= self.tags@.len(),
                forall|j: int| 0 <= j < i ==> strs(self.selected_tags@).contains(#[trigger] self.tags@[j]@),
            decreases self.tags@.len() - i,
        {
            let tag = self.tags[i].clone();
            if !self.is_selected(tag.as_str()) {
                let _ = self.toggle_selection(tag.as_str());
            }
            i = i + 1;
        }
    }

    /// Deselects every tag.
    pub fn clear_selection(&mut self)
        requires
            old(self).wf(),
        ensures
            final(self).wf(),
            final(self).selected_tags@.len() == 0,
            final(self).messages == old(self).messages,
            final(self).tags == old(self).tags,
            final(self).servers == old(self).servers,
            final(self).tag_values == old(self).tag_values,
            final(self).selected_index == old(self).selected_index,
            final(self).list_selected == old(self).list_selected,
            final(self).table_selected == old(self).table_selected,
    {
        self.selected_tags = Vec::new();
        assert(strs(self.selected_tags@) =~= Seq::<Seq<char>>::empty());
    }
}

/// The whole application state.
pub struct App {
    /// Screens and host.
    pub nav: NavigationState,
    /// The write dialog.
    pub dialog: DialogState,
    /// Periodic re-reading.
    pub refresher: AutoRefresher,
    /// Background tasks with results outstanding.
    pub pending: PendingTasks,
    /// Tag search.
    pub search: SearchEngine,
    /// What is shown.
    pub view: ViewState,
    /// Work requested from the host loop and not yet taken.
    pub effects: Vec<Effect>,
}

/// The number of rows of the list shown on `screen`.
pub open spec fn spec_row_count(app: &App) -> nat {
    match app.nav.current_screen {
        CurrentScreen::ServerList => app.view.servers@.len(),
        CurrentScreen::TagList => app.view.tags@.len(),
        CurrentScreen::TagValues => app.view.tag_values.values@.len(),
        _ => 0,
    }
}

/// The highlighted row after moving down one row among `count` rows.
pub open spec fn spec_select_next(sel: Option<usize>, count: nat) -> Option<usize> {
    if count == 0 {
        sel
    } else {
        match sel {
            Some(i) => if i + 1 < count { Some((i + 1) as usize) } else { sel },
            None => Some(0),
        }
    }
}

/// The highlighted row after moving up one row.
pub open spec fn spec_select_prev(sel: Option<usize>) -> Option<usize> {
    match sel {
        Some(i) => if i > 0 { Some((i - 1) as usize) } else { sel },
        None => None,
    }
}

/// The highlighted row after moving down a page among `count` rows.
pub open spec fn spec_page_down(sel: Option<usize>, count: nat) -> Option<usize> {
    if count == 0 {
        sel
    } else {
        match sel {
            Some(i) => Some((if i + PAGE_SIZE < count { i + PAGE_SIZE } else { count - 1 }) as usize),
            None => Some(0),
        }
    }
}

/// The highlighted row after moving up a page.
pub open spec fn spec_page_up(sel: Option<usize>) -> Option<usize> {
    match sel {
        Some(i) => Some((if i >= PAGE_SIZE { i - PAGE_SIZE } else { 0 }) as usize),
        None => Some(0),
    }
}

impl App {
    /// The view and search invariants hold.
    pub open spec fn wf(&self) -> bool {
        self.view.wf() && self.search.wf()
    }

    /// A fresh application on the home screen.
    pub fn new() -> (r: Self)
        ensures
            r.wf(),
            r.nav.current_screen == CurrentScreen::Home,
            r.nav.host_input@ == "localhost"@,
            r.effects@.len() == 0,
            r.view.messages@.len() == 0,
            r.view.selected_index is None,
            r.view.servers@.len() == 0,
            r.view.tags@.len() == 0,
            r.view.selected_tags@.len() == 0,
            r.view.tag_values.values@.len() == 0,
            r.view.list_selected is None,
            r.view.table_selected is None,
            !r.pending.fetch && !r.pending.browse && !r.pending.read && !r.pending.write,
            r.nav.previous_screen == CurrentScreen::Home,
            r.nav.browsed_server is None,
            r.dialog.write_tag_id is None,
            r.dialog.write_value_input@.len() == 0,
            r.refresher.server is None,
            r.refresher.tag_ids@.len() == 0,
            r.refresher.last_read_time is None,
            !r.search.search_mode,
            r.search.search_query@.len() == 0,
            r.search.tags_lowercase@.len() == 0,
    {
        App {
            nav: NavigationState::default(),
            dialog: DialogState::default(),
            refresher: AutoRefresher::default(),
            pending: PendingTasks { fetch: false, browse: false, read: false, write: false },
            search: SearchEngine::default(),
            view: ViewState::new(),
            effects: Vec::new(),
        }
    }

    /// Switches to `to`, remembering the screen left.
    pub fn log_transition(&mut self, to: CurrentScreen)
        ensures
            final(self).nav.current_screen == to,
            final(self).nav.previous_screen == old(self).nav.current_screen,
            final(self).nav.host_input == old(self).nav.host_input,
            final(self).nav.browsed_server == old(self).nav.browsed_server,
            final(self).view == old(self).view,
            final(self).search == old(self).search,
            final(self).dialog == old(self).dialog,
            final(self).refresher == old(self).refresher,
            final(self).pending == old(self).pending,
            final(self).effects == old(self).effects,
    {
        self.nav.previous_screen = self.nav.current_screen;
        self.nav.current_screen = to;
    }

    /// Appends a status message.
    pub fn add_message(&mut self, message: String)
        requires
            old(self).wf(),
        ensures
            final(self).wf(),
            final(self).view.messages@ == ring_push(old(self).view.messages@, message),
            final(self).nav == old(self).nav,
            final(self).search == old(self).search,
            final(self).dialog == old(self).dialog,
            final(self).refresher == old(self).refresher,
            final(self).pending == old(self).pending,
            final(self).effects == old(self).effects,
            final(self).view.servers == old(self).view.servers,
            final(self).view.tags == old(self).view.tags,
            final(self).view.selected_tags == old(self).view.selected_tags,
            final(self).view.tag_values == old(self).view.tag_values,
            final(self).view.selected_index == old(self).view.selected_index,
            final(self).view.list_selected == old(self).view.list_selected,
            final(self).view.table_selected == old(self).view.table_selected,
    {
        self.view.add_message(message);
    }

    /// Takes the work requested so far.
    pub fn take_effects(&mut self) -> (r: Vec<Effect>)
        ensures
            r == old(self).effects,
            final(self).effects@.len() == 0,
            final(self).nav == old(self).nav,
            final(self).view == old(self).view,
            final(self).search == old(self).search,
            final(self).pending == old(self).pending,
    {
        let mut out: Vec<Effect> = Vec::new();
        std::mem::swap(&mut out, &mut self.effects);
        out
    }

    /// Number of rows of the list shown.
    pub fn row_count(&self) -> (r: usize)
        ensures
            r == spec_row_count(self),
    {
        match self.nav.current_screen {
            CurrentScreen::ServerList => self.view.servers.len(),
            CurrentScreen::TagList => self.view.tags.len(),
            CurrentScreen::TagValues => self.view.tag_values.len(),
            _ => 0,
        }
    }

    /// Highlights `sel` in the list, and in the table on the values screen.
    fn highlight(&mut self, sel: usize)
        ensures
            final(self).view.selected_index == Some(sel),
            final(self).view.list_selected == Some(sel),
            old(self).nav.current_screen == CurrentScreen::TagValues ==> final(self).view.table_selected == Some(sel),
            old(self).nav.current_screen != CurrentScreen::TagValues ==> final(self).view.table_selected
                == old(self).view.table_selected,
            final(self).nav == old(self).nav,
            final(self).search == old(self).search,
            final(self).dialog == old(self).dialog,
            final(self).refresher == old(self).refresher,
            final(self).pending == old(self).pending,
            final(self).effects == old(self).effects,
            final(self).view.servers == old(self).view.servers,
            final(self).view.tags == old(self).view.tags,
            final(self).view.selected_tags == old(self).view.selected_tags,
            final(self).view.tag_values == old(self).view.tag_values,
            final(self).view.messages == old(self).view.messages,
    {
        self.view.selected_index = Some(sel);
        self.view.list_selected = Some(sel);
        if self.nav.current_screen == CurrentScreen::TagValues {
            self.view.table_selected = Some(sel);
        }
    }

    /// Moves the highlight down one row (staying on the last row).
    pub fn select_next(&mut self)
        ensures
            final(self).view.selected_index == spec_select_next(old(self).view.selected_index, spec_row_count(old(self))),
            final(self).nav == old(self).nav,
            final(self).view.messages == old(self).view.messages,
            final(self).view.servers == old(self).view.servers,
            final(self).view.tags == old(self).view.tags,
            final(self).view.tag_values == old(self).view.tag_values,
            final(self).view.selected_tags == old(self).view.selected_tags,
            final(self).search == old(self).search,
            final(self).effects == old(self).effects,
    {
        let count = self.row_count();
        if count == 0 {
            return;
        }
        match self.view.selected_index {
            Some(idx) => {
                if idx < count - 1 {
                    self.highlight(idx + 1);
                }
            },
            None => self.highlight(0),
        }
    }

    /// Moves the highlight up one row (staying on the first row).
    pub fn select_prev(&mut self)
        ensures
            final(self).view.selected_index == spec_select_prev(old(self).view.selected_index),
            final(self).nav == old(self).nav,
            final(self).view.messages == old(self).view.messages,
            final(self).view.servers == old(self).view.servers,
            final(self).view.tags == old(self).view.tags,
            final(self).view.tag_values == old(self).view.tag_values,
            final(self).view.selected_tags == old(self).view.selected_tags,
            final(self).search == old(self).search,
            final(self).effects == old(self).effects,
    {
        match self.view.selected_index {
            Some(idx) => {
                if idx > 0 {
                    self.highlight(idx - 1);
                }
            },
            None => {},
        }
    }

    /// Moves the highlight down a page, stopping at the last row.
    pub fn page_down(&mut self)
        ensures
            final(self).view.selected_index == spec_page_down(old(self).view.selected_index, spec_row_count(old(self))),
            final(self).nav == old(self).nav,
            final(self).view.messages == old(self).view.messages,
            final(self).view.servers == old(self).view.servers,
            final(self).view.tags == old(self).view.tags,
            final(self).view.tag_values == old(self).view.tag_values,
            final(self).view.selected_tags == old(self).view.selected_tags,
            final(self).search == old(self).search,
            final(self).effects == old(self).effects,
    {
        let count = self.row_count();
        if count == 0 {
            return;
        }
        match self.view.selected_index {
            Some(idx) => {
                let target = if idx < count - 1 && count - 1 - idx > PAGE_SIZE { idx + PAGE_SIZE } else { count - 1 };
                self.highlight(target);
            },
            None => self.highlight(0),
        }
    }

    /// Moves the highlight up a page, stopping at the first row.
    pub fn page_up(&mut self)
        ensures
            final(self).view.selected_index == spec_page_up(old(self).view.selected_index),
            final(self).nav == old(self).nav,
            final(self).view.messages == old(self).view.messages,
            final(self).view.servers == old(self).view.servers,
            final(self).view.tags == old(self).view.tags,
            final(self).view.tag_values == old(self).view.tag_values,
            final(self).view.selected_tags == old(self).view.selected_tags,
            final(self).search == old(self).search,
            final(self).effects == old(self).effects,
    {
        match self.view.selected_index {
            Some(idx) => {
                let target = if idx >= PAGE_SIZE { idx - PAGE_SIZE } else { 0 };
                self.highlight(target);
            },
            None => self.highlight(0),
        }
    }
}

/// Moving the highlight keeps it on a row of the list: starting from no highlight or a
/// row of a non-empty list of `count` rows, each of the four moves lands on a row.
pub proof fn lemma_moves_stay_in_range(sel: Option<usize>, count: nat)
    requires
        count > 0,
        count <= usize::MAX,
        sel matches Some(i) ==> i < count,
    ensures
        spec_select_next(sel, count) matches Some(i) && i < count,
        spec_page_down(sel, count) matches Some(i) && i < count,
        spec_page_up(sel) matches Some(i) && i < count,
        sel is Some ==> (spec_select_prev(sel) matches Some(i) && i < count),
{
}

/// Message shown when server enumeration starts.
pub open spec fn spec_connecting_message(host: Seq<char>) -> Seq<char> {
    "Connecting to "@ + host + "..."@
}

/// Message shown when servers were found.
pub open spec fn spec_found_servers_message(count: nat, host: Seq<char>) -> Seq<char> {
    "Found "@ + spec_decimal(count) + " servers on "@ + host
}

/// Message shown when server enumeration failed.
pub open spec fn spec_fetch_error_message(e: crate::error::OpcErrorView) -> Seq<char> {
    "Error fetching servers: "@ + spec_error_message(e)
}

/// The error of a task that ran out of time: `what` timed out, with the limit in
/// seconds.
pub open spec fn spec_timeout_error(what: Seq<char>, secs: u64) -> crate::error::OpcErrorView {
    OpcErrorOf::Internal(what + " timed out ("@ + spec_decimal(secs as nat) + "s)"@)
}

/// Builds the error of a task that ran out of time.
fn timeout_error(what: &str, secs: u64) -> (r: OpcError)
    ensures
        r@ == spec_timeout_error(what@, secs),
{
    let a = concat_str(what, " timed out (");
    let d = u64_to_string(secs);
    let b = a.concat(d.as_str());
    OpcErrorOf::Internal(b.concat("s)"))
}

/// The outcome of a server enumeration that ran out of time.
pub fn fetch_timeout_error() -> (r: OpcError)
    ensures
        r@ == spec_timeout_error("Connection"@, OPC_TIMEOUT_SECS),
{
    timeout_error("Connection", OPC_TIMEOUT_SECS)
}

/// The outcome of a read that ran out of time.
pub fn read_timeout_error() -> (r: OpcError)
    ensures
        r@ == spec_timeout_error("Read"@, OPC_TIMEOUT_SECS),
{
    timeout_error("Read", OPC_TIMEOUT_SECS)
}

/// The outcome of a write that ran out of time.
pub fn write_timeout_error() -> (r: OpcError)
    ensures
        r@ == spec_timeout_error("Write"@, OPC_TIMEOUT_SECS_WRITE),
{
    timeout_error("Write", OPC_TIMEOUT_SECS_WRITE)
}

/// Message of the error of a browse of `server` that ran out of time having found nothing.
pub open spec fn spec_browse_timeout_message(server: Seq<char>) -> Seq<char> {
    "Browse timed out ("@ + spec_decimal(OPC_TIMEOUT_SECS as nat) + "s) for '"@ + server + "' with no tags found"@
}

/// The outcome of a browse of `server` that ran out of time: the tags gathered until
/// then, or an error when there are none.
pub fn browse_timeout_result(partial: Vec<String>, server: &str) -> (r: OpcResult<Vec<String>>)
    ensures
        partial@.len() > 0 ==> r == Ok::<Vec<String>, OpcError>(partial),
        partial@.len() == 0 ==> (r matches Err(e) && e@ == OpcErrorOf::<Seq<char>>::Internal(
            spec_browse_timeout_message(server@),
        )),
{
    if partial.len() > 0 {
        Ok(partial)
    } else {
        let d = u64_to_string(OPC_TIMEOUT_SECS);
        let a = concat_str("Browse timed out (", d.as_str());
        let b = a.concat("s) for '");
        let c = b.concat(server);
        Err(OpcErrorOf::Internal(c.concat("' with no tags found")))
    }
}

/// Message shown for the outcome of a write.
pub open spec fn spec_write_outcome_message(outcome: TaskOutcome<WriteResult>) -> Seq<char> {
    match outcome {
        TaskOutcome::Ready(Ok(result)) => match result.status {
            Ok(_) => "✓ Write to '"@ + result.tag_id@ + "' succeeded"@,
            Err(e) => "✗ Write to '"@ + result.tag_id@ + "' failed: "@ + spec_error_message(e@),
        },
        TaskOutcome::Ready(Err(e)) => "Write error: "@ + spec_error_message(e@),
        TaskOutcome::Closed => "Write task terminated unexpectedly"@,
    }
}

/// Message shown when tags were found.
pub open spec fn spec_found_tags_message(count: nat) -> Seq<char> {
    "Found "@ + spec_decimal(count) + " tags"@
}

/// The value of the first shown tag named `tag` is a boolean.
pub open spec fn first_value_is_bool(values: Seq<TagValue>, tag: Seq<char>) -> bool {
    exists|i: int|
        0 <= i < values.len() && #[trigger] values[i].tag_id@ == tag
            && (forall|j: int| 0 <= j < i ==> (#[trigger] values[j]).tag_id@ != tag)
            && (values[i].outcome matches Ok(v) && v is Bool)
}

/// The value written for typed text `s` to `tag`: the text parsed as a value, except
/// that `1` and `0` mean true and false for a tag whose shown value is a boolean.
pub open spec fn spec_resolve_write_value(values: Seq<TagValue>, tag: Seq<char>, s: Seq<char>, float_bits: Option<u64>) -> OpcValueView {
    if first_value_is_bool(values, tag) && s == "1"@ {
        OpcValueOf::Bool(true)
    } else if first_value_is_bool(values, tag) && s == "0"@ {
        OpcValueOf::Bool(false)
    } else {
        spec_parse_value(s, float_bits)
    }
}

/// What leaving a screen for its parent does.
pub open spec fn went_back(old: App, new: App) -> bool {
    &&& old.nav.current_screen == CurrentScreen::Loading ==> {
        &&& new.nav.current_screen == old.nav.previous_screen
        &&& new.effects@.len() == old.effects@.len() + 1
        &&& new.effects@.last() is CancelAll
        &&& !new.pending.fetch && !new.pending.browse && !new.pending.read && !new.pending.write
    }
    &&& old.nav.current_screen == CurrentScreen::ServerList ==> {
        &&& new.nav.current_screen == CurrentScreen::Home
        &&& new.view.servers@.len() == 0
        &&& new.view.selected_index is None
    }
    &&& old.nav.current_screen == CurrentScreen::TagList ==> {
        &&& new.nav.current_screen == CurrentScreen::ServerList
        &&& new.view.tags@.len() == 0
        &&& new.view.selected_tags@.len() == 0
        &&& new.view.selected_index == (if old.view.servers@.len() > 0 {
            Some(0usize)
        } else {
            old.view.selected_index
        })
    }
    &&& old.nav.current_screen == CurrentScreen::TagValues ==> {
        &&& new.nav.current_screen == CurrentScreen::TagList
        &&& new.view.tag_values.values@.len() == 0
        &&& new.refresher.server is None
        &&& new.view.selected_index == (if old.view.tags@.len() > 0 { Some(0usize) } else { None })
    }
    &&& old.nav.current_screen == CurrentScreen::WriteInput ==> {
        &&& new.nav.current_screen == CurrentScreen::TagValues
        &&& new.dialog.write_tag_id is None
    }
    &&& (old.nav.current_screen == CurrentScreen::Home || old.nav.current_screen == CurrentScreen::Exiting)
        ==> new.nav == old.nav
}

/// What starting a search does.
pub open spec fn search_entered(old: App, new: App) -> bool {
    &&& old.nav.current_screen == CurrentScreen::TagList ==> new.search.search_mode
        && new.search.search_query@.len() == 0
    &&& old.nav.current_screen != CurrentScreen::TagList ==> new.search == old.search
    &&& new.nav == old.nav
    &&& new.view == old.view
}

/// What ending a search does.
pub open spec fn search_exited(old: App, new: App) -> bool {
    &&& !new.search.search_mode
    &&& new.nav == old.nav
    &&& new.view == old.view
}

/// What typing `c` into the search does.
pub open spec fn search_typed(old: App, new: App, c: char) -> bool {
    &&& new.search.search_query@ == old.search.search_query@.push(c)
    &&& new.search.matches_current()
    &&& new.search.search_matches@.len() > 0 ==> new.view.selected_index == Some(new.search.search_matches@[0])
}

/// What erasing from the search does.
pub open spec fn search_erased(old: App, new: App) -> bool {
    &&& new.search.search_query@ == erased(old.search.search_query@)
    &&& new.search.matches_current()
    &&& new.search.search_matches@.len() > 0 ==> new.view.selected_index == Some(new.search.search_matches@[0])
}

/// What moving to the next match does.
pub open spec fn moved_to_next_match(old: App, new: App) -> bool {
    &&& new.search.search_matches == old.search.search_matches
    &&& old.search.search_matches@.len() > 0 ==> {
        &&& new.search.search_match_index == spec_next_index(
            old.search.search_match_index as nat,
            old.search.search_matches@.len(),
        )
        &&& new.view.selected_index == Some(old.search.search_matches@[new.search.search_match_index as int])
    }
}

/// What moving to the previous match does.
pub open spec fn moved_to_prev_match(old: App, new: App) -> bool {
    &&& new.search.search_matches == old.search.search_matches
    &&& old.search.search_matches@.len() > 0 ==> new.search.search_match_index == spec_prev_index(
        old.search.search_match_index as nat,
        old.search.search_matches@.len(),
    )
    &&& old.search.search_matches@.len() > 0 && new.search.search_match_index < old.search.search_matches@.len()
        ==> new.view.selected_index == Some(old.search.search_matches@[new.search.search_match_index as int])
}

/// The highlighted row of the tag list, when the tag list is shown and a row is
/// highlighted.
pub open spec fn highlighted_tag(a: App) -> Option<Seq<char>> {
    if a.nav.current_screen == CurrentScreen::TagList && a.view.selected_index is Some
        && a.view.selected_index->0 < a.view.tags@.len() {
        Some(a.view.tags@[a.view.selected_index->0 as int]@)
    } else {
        None
    }
}

/// What toggling the highlighted tag's selection does.
pub open spec fn selection_toggled(old: App, new: App) -> bool {
    &&& new.nav == old.nav
    &&& new.view.tags == old.view.tags
    &&& new.view.selected_index == old.view.selected_index
    &&& highlighted_tag(old) matches Some(t) ==> strs(new.view.selected_tags@).contains(t) == !strs(
        old.view.selected_tags@,
    ).contains(t)
}

/// What starting a server enumeration does.
pub open spec fn fetch_started(old: App, new: App) -> bool {
    &&& new.nav.current_screen == CurrentScreen::Loading
    &&& new.nav.previous_screen == old.nav.current_screen
    &&& new.pending.fetch
    &&& new.effects@ == old.effects@.push(new.effects@.last())
    &&& new.effects@.last() matches Effect::FetchServers { host } && host@ == old.nav.host_input@
    &&& new.view.messages@.last()@ == spec_connecting_message(old.nav.host_input@)
}

/// The highlighted server, when the server list is shown and a row is highlighted.
pub open spec fn highlighted_server(a: App) -> Option<Seq<char>> {
    if a.nav.current_screen == CurrentScreen::ServerList && a.view.selected_index is Some
        && a.view.selected_index->0 < a.view.servers@.len() {
        Some(a.view.servers@[a.view.selected_index->0 as int]@)
    } else {
        None
    }
}

/// What starting a browse of the highlighted server does.
pub open spec fn browse_started(old: App, new: App) -> bool {
    &&& highlighted_server(old) matches Some(srv) ==> {
        &&& new.nav.current_screen == CurrentScreen::Loading
        &&& new.pending.browse
        &&& new.nav.browsed_server matches Some(s) && s@ == srv
        &&& new.effects@.last() matches Effect::BrowseTags { server, max_tags } && server@ == srv
            && max_tags == MAX_BROWSE_TAGS
    }
    &&& highlighted_server(old) is None ==> new == old
}

/// The selected tags of `a`, in list order.
pub open spec fn selected_tags_in_order(a: App) -> Seq<Seq<char>> {
    selected_in_order(strs(a.view.tags@), strs(a.view.selected_tags@), a.view.tags@.len() as int)
}

/// What starting a read of the selected tags does.
pub open spec fn read_started(old: App, new: App) -> bool {
    &&& old.nav.current_screen != CurrentScreen::TagList ==> new == old
    &&& (old.nav.current_screen == CurrentScreen::TagList && selected_tags_in_order(old).len() > 0
        && old.nav.browsed_server is Some) ==> {
        &&& new.nav.current_screen == CurrentScreen::Loading
        &&& new.pending.read
        &&& strs(new.refresher.tag_ids@) == selected_tags_in_order(old)
        &&& new.effects@.last() matches Effect::ReadValues { server, tag_ids } && server@
            == old.nav.browsed_server->0@ && strs(tag_ids@) == selected_tags_in_order(old)
    }
    &&& (old.nav.current_screen == CurrentScreen::TagList && (selected_tags_in_order(old).len() == 0
        || old.nav.browsed_server is None)) ==> new.nav == old.nav && new.effects == old.effects
}

/// What opening the write dialog does.
pub open spec fn write_mode_entered(old: App, new: App) -> bool {
    &&& old.nav.current_screen != CurrentScreen::TagValues ==> new == old
    &&& (old.nav.current_screen == CurrentScreen::TagValues && old.view.tag_values.values@.len() == 1) ==> {
        &&& new.nav.current_screen == CurrentScreen::WriteInput
        &&& new.dialog.write_tag_id matches Some(t) && t@ == old.view.tag_values.values@[0].tag_id@
        &&& new.dialog.write_value_input@.len() == 0
    }
}

/// What submitting the write dialog does (`float_bits` is the typed text read as a float).
pub open spec fn write_submitted(old: App, new: App, float_bits: Option<u64>) -> bool {
    &&& old.dialog.write_tag_id is None ==> new == old
    &&& (old.dialog.write_tag_id is Some && spec_trim(old.dialog.write_value_input@).len() > 0
        && old.refresher.server is Some) ==> {
        &&& new.nav.current_screen == CurrentScreen::Loading
        &&& new.pending.write
        &&& new.effects@.last() matches Effect::WriteValue { server, tag_id, value } && server@
            == old.refresher.server->0@ && tag_id@ == old.dialog.write_tag_id->0@ && value@
            == spec_resolve_write_value(
            old.view.tag_values.values@,
            old.dialog.write_tag_id->0@,
            spec_trim(old.dialog.write_value_input@),
            float_bits,
        )
    }
}

/// The keys the application reacts to.
#[derive(Debug, Clone, Copy, PartialEq, Eq, Structural)]
pub enum Key {
    /// Enter.
    Enter,
    /// Escape.
    Esc,
    /// Backspace.
    Backspace,
    /// Tab.
    Tab,
    /// Shift-Tab.
    BackTab,
    /// Arrow up.
    Up,
    /// Arrow down.
    Down,
    /// Page up.
    PageUp,
    /// Page down.
    PageDown,
    /// A character.
    Char(char),
    /// Any other key.
    Other,
}

impl App {
    /// Leaves the current screen for its parent.  Leaving the loading screen abandons
    /// the background work and returns to the screen it was started from; leaving a list
    /// empties it and highlights the parent list's first row.
    pub fn go_back(&mut self)
        requires
            old(self).wf(),
        ensures
            final(self).wf(),
            went_back(*old(self), *final(self)),
    {
        match self.nav.current_screen {
            CurrentScreen::Loading => {
                self.effects.push(Effect::CancelAll);
                self.pending = PendingTasks { fetch: false, browse: false, read: false, write: false };
                let target = self.nav.previous_screen;
                self.log_transition(target);
                self.add_message(String::from_str("Operation cancelled"));
            },
            CurrentScreen::ServerList => {
                self.log_transition(CurrentScreen::Home);
                self.view.servers = Vec::new();
                self.view.selected_index = None;
                self.view.list_selected = None;
            },
            CurrentScreen::TagList => {
                self.log_transition(CurrentScreen::ServerList);
                self.view.tags = Vec::new();
                self.view.clear_selection();
                let empty: Vec<String> = Vec::new();
                self.search.update_tags(&empty);
                if self.view.servers.len() > 0 {
                    self.view.selected_index = Some(0);
                    self.view.list_selected = Some(0);
                }
            },
            CurrentScreen::TagValues => {
                self.log_transition(CurrentScreen::TagList);
                self.view.tag_values = TagValues::new(Vec::new());
                self.refresher.clear();
                if self.view.tags.len() > 0 {
                    self.view.selected_index = Some(0);
                    self.view.list_selected = Some(0);
                } else {
                    self.view.selected_index = None;
                    self.view.list_selected = None;
                }
            },
            CurrentScreen::WriteInput => {
                self.log_transition(CurrentScreen::TagValues);
                self.dialog.clear();
            },
            _ => {},
        }
    }

    /// Enters search mode on the tag list.
    pub fn enter_search_mode(&mut self)
        requires
            old(self).wf(),
        ensures
            final(self).wf(),
            search_entered(*old(self), *final(self)),
    {
        if self.nav.current_screen != CurrentScreen::TagList {
            return;
        }
        self.search.enter();
    }

    /// Leaves search mode.
    pub fn exit_search_mode(&mut self)
        requires
            old(self).wf(),
        ensures
            final(self).wf(),
            search_exited(*old(self), *final(self)),
    {
        self.search.exit();
    }

    /// Highlights the first match, if any.
    fn highlight_first_match(&mut self)
        requires
            old(self).wf(),
        ensures
            final(self).wf(),
            final(self).search == old(self).search,
            final(self).nav == old(self).nav,
            old(self).search.search_matches@.len() > 0 ==> final(self).view.selected_index == Some(
                old(self).search.search_matches@[0],
            ),
            old(self).search.search_matches@.len() == 0 ==> final(self).view.selected_index == old(self).view.selected_index,
            final(self).view.messages == old(self).view.messages,
            final(self).view.selected_tags == old(self).view.selected_tags,
            final(self).view.tags == old(self).view.tags,
    {
        match self.search.first_match() {
            Some(first) => {
                self.view.selected_index = Some(first);
                self.view.list_selected = Some(first);
            },
            None => {},
        }
    }

    /// Appends `c` to the query and highlights the first match.
    pub fn update_search_query(&mut self, c: char)
        requires
            old(self).wf(),
        ensures
            final(self).wf(),
            search_typed(*old(self), *final(self), c),
    {
        self.search.push_char(c);
        self.highlight_first_match();
    }

    /// Deletes the last query character and highlights the first match.
    pub fn search_backspace(&mut self)
        requires
            old(self).wf(),
        ensures
            final(self).wf(),
            search_erased(*old(self), *final(self)),
    {
        self.search.backspace();
        self.highlight_first_match();
    }

    /// Highlights the next match.
    pub fn next_search_match(&mut self)
        requires
            old(self).wf(),
        ensures
            final(self).wf(),
            moved_to_next_match(*old(self), *final(self)),
    {
        match self.search.next_match() {
            Some(i) => {
                self.view.selected_index = Some(i);
                self.view.list_selected = Some(i);
            },
            None => {},
        }
    }

    /// Highlights the previous match.
    pub fn prev_search_match(&mut self)
        requires
            old(self).wf(),
        ensures
            final(self).wf(),
            moved_to_prev_match(*old(self), *final(self)),
    {
        match self.search.prev_match() {
            Some(i) => {
                self.view.selected_index = Some(i);
                self.view.list_selected = Some(i);
            },
            None => {},
        }
    }

    /// Toggles the selection of the highlighted tag on the tag list.
    pub fn toggle_tag_selection(&mut self)
        requires
            old(self).wf(),
        ensures
            final(self).wf(),
            selection_toggled(*old(self), *final(self)),
    {
        if self.nav.current_screen != CurrentScreen::TagList {
            return;
        }
        match self.view.selected_index {
            Some(idx) => {
                if idx < self.view.tags.len() {
                    let tag = self.view.tags[idx].clone();
                    let _ = self.view.toggle_selection(tag.as_str());
                }
            },
            None => {},
        }
    }

    /// Starts enumerating the servers on the typed host.
    pub fn start_fetch_servers(&mut self)
        requires
            old(self).wf(),
        ensures
            final(self).wf(),
            fetch_started(*old(self), *final(self)),
    {
        let host = self.nav.host_input.clone();
        self.log_transition(CurrentScreen::Loading);
        let a = concat_str("Connecting to ", host.as_str());
        let msg = a.concat("...");
        proof {
            reveal_strlit("Connecting to ");
            reveal_strlit("...");
        }
        self.add_message(msg);
        self.effects.push(Effect::FetchServers { host });
        self.pending.fetch = true;
    }

    /// Takes the outcome of a server enumeration: the servers are listed with the first
    /// highlighted, or the home screen is shown again with the error.
    pub fn on_fetch_result(&mut self, outcome: TaskOutcome<Vec<String>>)
        requires
            old(self).wf(),
        ensures
            final(self).wf(),
            !final(self).pending.fetch,
            outcome matches TaskOutcome::Ready(Ok(servers)) ==> {
                &&& final(self).nav.current_screen == CurrentScreen::ServerList
                &&& final(self).view.servers == servers
                &&& final(self).view.selected_index == (if servers@.len() > 0 { Some(0usize) } else { None })
                &&& final(self).view.messages@.last()@ == spec_found_servers_message(
                    servers@.len(),
                    old(self).nav.host_input@,
                )
            },
            outcome matches TaskOutcome::Ready(Err(e)) ==> {
                &&& final(self).nav.current_screen == CurrentScreen::Home
                &&& final(self).view.messages@.last()@ == spec_fetch_error_message(e@)
            },
            outcome is Closed ==> {
                &&& final(self).nav.current_screen == CurrentScreen::Home
                &&& final(self).view.messages@.last()@ == "Server listing task terminated unexpectedly"@
            },
    {
        self.pending.fetch = false;
        match outcome {
            TaskOutcome::Ready(Ok(servers)) => {
                self.view.servers = servers;
                self.log_transition(CurrentScreen::ServerList);
                if self.view.servers.len() == 0 {
                    self.view.selected_index = None;
                    self.view.list_selected = None;
                } else {
                    self.view.selected_index = Some(0);
                    self.view.list_selected = Some(0);
                }
                let count = usize_to_string(self.view.servers.len());
                let a = concat_str("Found ", count.as_str());
                let b = a.concat(" servers on ");
                let msg = b.concat(self.nav.host_input.as_str());
                proof {
                    reveal_strlit("Found ");
                    reveal_strlit(" servers on ");
                }
                self.add_message(msg);
            },
            TaskOutcome::Ready(Err(e)) => {
                self.log_transition(CurrentScreen::Home);
                let m = e.message();
                let msg = concat_str("Error fetching servers: ", m.as_str());
                proof {
                    reveal_strlit("Error fetching servers: ");
                }
                self.add_message(msg);
            },
            TaskOutcome::Closed => {
                self.log_transition(CurrentScreen::Home);
                self.add_message(String::from_str("Server listing task terminated unexpectedly"));
            },
        }
    }

    /// Starts browsing the highlighted server.
    pub fn start_browse_tags(&mut self)
        requires
            old(self).wf(),
        ensures
            final(self).wf(),
            browse_started(*old(self), *final(self)),
    {
        if self.nav.current_screen != CurrentScreen::ServerList {
            return;
        }
        let idx = match self.view.selected_index {
            Some(i) => i,
            None => return,
        };
        if idx >= self.view.servers.len() {
            return;
        }
        let server = self.view.servers[idx].clone();
        self.nav.browsed_server = Some(server.clone());
        self.log_transition(CurrentScreen::Loading);
        let a = concat_str("Browsing tags on ", server.as_str());
        self.add_message(a.concat("..."));
        self.effects.push(Effect::BrowseTags { server, max_tags: MAX_BROWSE_TAGS });
        self.pending.browse = true;
    }

    /// Takes the outcome of a browse: the tags are listed (none selected, the first
    /// highlighted), or the server list is shown again with the error.
    pub fn on_browse_result(&mut self, outcome: TaskOutcome<Vec<String>>)
        requires
            old(self).wf(),
        ensures
            final(self).wf(),
            !final(self).pending.browse,
            outcome matches TaskOutcome::Ready(Ok(tags)) ==> {
                &&& final(self).nav.current_screen == CurrentScreen::TagList
                &&& final(self).view.tags == tags
                &&& final(self).view.selected_tags@.len() == 0
                &&& final(self).search.tags_lowercase@.len() == tags@.len()
                &&& final(self).view.selected_index == (if tags@.len() > 0 { Some(0usize) } else { None })
                &&& final(self).view.messages@.last()@ == spec_found_tags_message(tags@.len())
            },
            outcome matches TaskOutcome::Ready(Err(e)) ==> {
                &&& final(self).nav.current_screen == CurrentScreen::ServerList
                &&& final(self).view.messages@.last()@ == "Error: "@ + spec_error_message(e@)
            },
            outcome is Closed ==> {
                &&& final(self).nav.current_screen == CurrentScreen::ServerList
                &&& final(self).view.messages@.last()@ == "Browse task terminated unexpectedly"@
            },
    {
        self.pending.browse = false;
        match outcome {
            TaskOutcome::Ready(Ok(tags)) => {
                self.search.update_tags(&tags);
                assert(self.search.tags_lowercase@.len() == tags@.len()) by {
                    assert(crate::tui::state::lower_view(self.search.tags_lowercase@).len() == self.search.tags_lowercase@.len());
                }
                self.view.tags = tags;
                self.view.clear_selection();
                self.log_transition(CurrentScreen::TagList);
                if self.view.tags.len() == 0 {
                    self.view.selected_index = None;
                    self.view.list_selected = None;
                } else {
                    self.view.selected_index = Some(0);
                    self.view.list_selected = Some(0);
                }
                let count = usize_to_string(self.view.tags.len());
                let a = concat_str("Found ", count.as_str());
                let msg = a.concat(" tags");
                proof {
                    reveal_strlit("Found ");
                    reveal_strlit(" tags");
                }
                self.add_message(msg);
            },
            TaskOutcome::Ready(Err(e)) => {
                self.log_transition(CurrentScreen::ServerList);
                let m = e.message();
                self.add_message(concat_str("Error: ", m.as_str()));
            },
            TaskOutcome::Closed => {
                self.log_transition(CurrentScreen::ServerList);
                self.add_message(String::from_str("Browse task terminated unexpectedly"));
            },
        }
    }
}

/// The selected tags among the first `n` browsed tags, in browse order.
pub open spec fn selected_in_order(tags: Seq<Seq<char>>, selected: Seq<Seq<char>>, n: int) -> Seq<Seq<char>>
    decreases n,
{
    if n <= 0 {
        Seq::empty()
    } else if selected.contains(tags[n - 1]) {
        selected_in_order(tags, selected, n - 1).push(tags[n - 1])
    } else {
        selected_in_order(tags, selected, n - 1)
    }
}

/// The row highlighted after `count` values were read with `sel` highlighted before.
pub open spec fn spec_values_highlight(sel: Option<usize>, count: nat) -> Option<usize> {
    if count == 0 {
        None
    } else {
        match sel {
            Some(i) => Some((if i < count { i as int } else { count - 1 }) as usize),
            None => Some(0),
        }
    }
}

impl App {
    /// The selected tags in browse order.
    fn selected_tag_ids(&self) -> (r: Vec<String>)
        ensures
            strs(r@) == selected_in_order(strs(self.view.tags@), strs(self.view.selected_tags@), self.view.tags@.len() as int),
    {
        let mut out: Vec<String> = Vec::new();
        let mut i: usize = 0;
        while i < self.view.tags.len()
            invariant
                i <= self.view.tags@.len(),
                strs(out@) == selected_in_order(strs(self.view.tags@), strs(self.view.selected_tags@), i as int),
            decreases self.view.tags@.len() - i,
        {
            assert(strs(self.view.tags@)[i as int] == self.view.tags@[i as int]@);
            if self.view.is_selected(self.view.tags[i].as_str()) {
                let ghost before = out@;
                out.push(self.view.tags[i].clone());
                assert(strs(out@) =~= strs(before).push(self.view.tags@[i as int]@));
            }
            i = i + 1;
        }
        out
    }

    /// Starts reading the selected tags of the browsed server, which are also kept for
    /// periodic re-reading.  Without a selection, or without a browsed server, a message
    /// says so and nothing starts.
    pub fn start_read_values(&mut self)
        requires
            old(self).wf(),
        ensures
            final(self).wf(),
            read_started(*old(self), *final(self)),
    {
        if self.nav.current_screen != CurrentScreen::TagList {
            return;
        }
        let selected = self.selected_tag_ids();
        if selected.len() == 0 {
            self.add_message(String::from_str("No tags selected. Press Space to select tags."));
            return;
        }
        let server = match &self.nav.browsed_server {
            Some(s) => s.clone(),
            None => {
                self.add_message(String::from_str("No server context — please browse tags first"));
                return;
            },
        };
        self.refresher.server = Some(server.clone());
        self.refresher.tag_ids = copy_tags(&selected);
        self.log_transition(CurrentScreen::Loading);
        let n = usize_to_string(selected.len());
        let a = concat_str("Reading ", n.as_str());
        self.add_message(a.concat(" tag values..."));
        self.effects.push(Effect::ReadValues { server, tag_ids: selected });
        self.pending.read = true;
    }

    /// Takes the outcome of a read: the values are shown (the highlight kept within
    /// them) with a count of errors and bad qualities, and the read time is recorded for
    /// periodic re-reading; on failure the tag list is shown again.
    pub fn on_read_result(&mut self, outcome: TaskOutcome<TagValues>, now_ms: u64)
        requires
            old(self).wf(),
        ensures
            final(self).wf(),
            !final(self).pending.read,
            outcome matches TaskOutcome::Ready(Ok(values)) ==> {
                &&& final(self).nav.current_screen == CurrentScreen::TagValues
                &&& final(self).view.tag_values == values
                &&& final(self).view.selected_index == spec_values_highlight(
                    old(self).view.selected_index,
                    values.values@.len(),
                )
                &&& final(self).refresher.last_read_time == Some(now_ms)
                &&& final(self).view.messages@.last()@ == spec_read_summary(
                    values.values@.len(),
                    count_failed_reads(values.values@),
                    count_bad_reads(values.values@),
                )
            },
            outcome matches TaskOutcome::Ready(Err(e)) ==> {
                &&& final(self).nav.current_screen == CurrentScreen::TagList
                &&& final(self).view.messages@.last()@ == "Error reading values: "@ + spec_error_message(e@)
            },
            outcome is Closed ==> {
                &&& final(self).nav.current_screen == CurrentScreen::TagList
                &&& final(self).view.messages@.last()@ == "Read task terminated unexpectedly"@
            },
    {
        self.pending.read = false;
        match outcome {
            TaskOutcome::Ready(Ok(values)) => {
                self.view.tag_values = values;
                self.log_transition(CurrentScreen::TagValues);
                let total = self.view.tag_values.len();
                if total == 0 {
                    self.view.selected_index = None;
                    self.view.table_selected = None;
                } else {
                    match self.view.selected_index {
                        Some(idx) => {
                            let clamped = if idx < total { idx } else { total - 1 };
                            self.view.selected_index = Some(clamped);
                            self.view.table_selected = Some(clamped);
                        },
                        None => {
                            self.view.selected_index = Some(0);
                            self.view.table_selected = Some(0);
                        },
                    }
                }
                let mut errors: usize = 0;
                let mut bad: usize = 0;
                let mut i: usize = 0;
                while i < total
                    invariant
                        total == self.view.tag_values.values@.len(),
                        i <= total,
                        errors <= i,
                        bad <= i,
                        errors == count_failed_reads(self.view.tag_values.values@.take(i as int)),
                        bad == count_bad_reads(self.view.tag_values.values@.take(i as int)),
                    decreases total - i,
                {
                    proof {
                        let s = self.view.tag_values.values@;
                        assert(s.take(i + 1).drop_last() =~= s.take(i as int));
                    }
                    let tv = &self.view.tag_values.values[i];
                    if tv.is_error() {
                        errors = errors + 1;
                    } else if tv.is_bad() {
                        bad = bad + 1;
                    }
                    i = i + 1;
                }
                proof {
                    let s = self.view.tag_values.values@;
                    assert(s.take(total as int) =~= s);
                }
                let msg = read_summary_message(total, errors, bad);
                self.add_message(msg);
                self.refresher.last_read_time = Some(now_ms);
            },
            TaskOutcome::Ready(Err(e)) => {
                self.log_transition(CurrentScreen::TagList);
                let m = e.message();
                self.add_message(concat_str("Error reading values: ", m.as_str()));
            },
            TaskOutcome::Closed => {
                self.log_transition(CurrentScreen::TagList);
                self.add_message(String::from_str("Read task terminated unexpectedly"));
            },
        }
    }

    /// Opens the write dialog for the only shown value, or for the highlighted row of
    /// the table; without one, a message says so.
    pub fn enter_write_mode(&mut self)
        requires
            old(self).wf(),
        ensures
            final(self).wf(),
            write_mode_entered(*old(self), *final(self)),
    {
        if self.nav.current_screen != CurrentScreen::TagValues {
            return;
        }
        let n = self.view.tag_values.len();
        let tag_id: Option<String> = if n == 1 {
            Some(self.view.tag_values.values[0].tag_id.clone())
        } else {
            match self.view.table_selected {
                Some(idx) => if idx < n {
                    Some(self.view.tag_values.values[idx].tag_id.clone())
                } else {
                    None
                },
                None => None,
            }
        };
        match tag_id {
            Some(id) => {
                self.dialog.write_tag_id = Some(id);
                self.dialog.write_value_input = String::new();
                self.log_transition(CurrentScreen::WriteInput);
            },
            None => {
                self.add_message(String::from_str("No tag selected to write."));
            },
        }
    }

    /// The value to write for typed text `value_str` to `tag_id` (`float_bits` is the
    /// text read as a float, as a bit pattern, when it reads as one): `1` and `0` mean
    /// true and false for a tag whose shown value is a boolean; otherwise the text is
    /// parsed as a value.
    pub fn resolve_write_value(&self, tag_id: &str, value_str: &str, float_bits: Option<u64>) -> (r: OpcValue)
        ensures
            r@ == spec_resolve_write_value(self.view.tag_values.values@, tag_id@, value_str@, float_bits),
    {
        let parsed = parse_value(value_str, float_bits);
        let is_bool = match self.view.tag_values.get(tag_id) {
            Some(tv) => match &tv.outcome {
                Ok(v) => v.is_bool(),
                Err(_) => false,
            },
            None => false,
        };
        proof {
            reveal_strlit("1");
            reveal_strlit("0");
        }
        if is_bool && str_eq(value_str, "1") {
            OpcValueOf::Bool(true)
        } else if is_bool && str_eq(value_str, "0") {
            OpcValueOf::Bool(false)
        } else {
            parsed
        }
    }

    /// Starts writing the typed value (trimmed) to the dialog's tag on the server being
    /// read.  `float_bits` is the trimmed text read as a float, as a bit pattern, when it
    /// reads as one.  An empty value, or no server, gives a message instead.
    pub fn start_write_value(&mut self, float_bits: Option<u64>)
        requires
            old(self).wf(),
        ensures
            final(self).wf(),
            write_submitted(*old(self), *final(self), float_bits),
    {
        let tag_id = match &self.dialog.write_tag_id {
            Some(t) => t.clone(),
            None => return,
        };
        let value_str = str_trim(self.dialog.write_value_input.as_str());
        if value_str.unicode_len() == 0 {
            self.add_message(String::from_str("Value cannot be empty."));
            return;
        }
        let opc_value = self.resolve_write_value(tag_id.as_str(), value_str.as_str(), float_bits);
        let server = match &self.refresher.server {
            Some(s) => s.clone(),
            None => {
                self.add_message(String::from_str("No server context for write."));
                return;
            },
        };
        self.log_transition(CurrentScreen::Loading);
        let a = concat_str("Writing '", value_str.as_str());
        let b = a.concat("' to ");
        let c = b.concat(tag_id.as_str());
        self.add_message(c.concat("..."));
        self.effects.push(Effect::WriteValue { server, tag_id, value: opc_value });
        self.pending.write = true;
    }

    /// Takes the outcome of a write: a message reports success or failure of the tag's
    /// write and the values are shown again.
    pub fn on_write_result(&mut self, outcome: TaskOutcome<WriteResult>)
        requires
            old(self).wf(),
        ensures
            final(self).wf(),
            !final(self).pending.write,
            final(self).nav.current_screen == CurrentScreen::TagValues,
            final(self).view.messages@.len() > 0,
            final(self).view.messages@.last()@ == spec_write_outcome_message(outcome),
    {
        self.pending.write = false;
        match outcome {
            TaskOutcome::Ready(Ok(result)) => {
                let msg = match &result.status {
                    Ok(()) => {
                        let a = concat_str("✓ Write to '", result.tag_id.as_str());
                        a.concat("' succeeded")
                    },
                    Err(e) => {
                        let a = concat_str("✗ Write to '", result.tag_id.as_str());
                        let b = a.concat("' failed: ");
                        let m = e.message();
                        b.concat(m.as_str())
                    },
                };
                self.add_message(msg);
                self.log_transition(CurrentScreen::TagValues);
                self.start_read_values();
            },
            TaskOutcome::Ready(Err(e)) => {
                let m = e.message();
                self.add_message(concat_str("Write error: ", m.as_str()));
                self.log_transition(CurrentScreen::TagValues);
            },
            TaskOutcome::Closed => {
                self.log_transition(CurrentScreen::TagValues);
                self.add_message(String::from_str("Write task terminated unexpectedly"));
            },
        }
    }

    /// At clock reading `now_ms`, re-reads the shown values when at least
    /// [`AUTO_REFRESH_INTERVAL_MS`] passed since the last read and no read is outstanding.
    pub fn maybe_auto_refresh(&mut self, now_ms: u64)
        requires
            old(self).wf(),
        ensures
            final(self).wf(),
            final(self).nav == old(self).nav,
            final(self).view == old(self).view,
            ({
                let due = old(self).nav.current_screen == CurrentScreen::TagValues && !old(self).pending.read
                    && old(self).refresher.last_read_time is Some && old(self).refresher.last_read_time->0
                    <= now_ms && now_ms - old(self).refresher.last_read_time->0 >= AUTO_REFRESH_INTERVAL_MS
                    && old(self).refresher.server is Some && old(self).refresher.tag_ids@.len() > 0;
                &&& due ==> final(self).pending.read && final(self).effects@.len() == old(self).effects@.len() + 1
                    && (final(self).effects@.last() matches Effect::ReadValues { server, tag_ids } && server@
                    == old(self).refresher.server->0@ && strs(tag_ids@) == strs(old(self).refresher.tag_ids@))
                &&& !due ==> final(self).effects == old(self).effects
            }),
    {
        if self.nav.current_screen != CurrentScreen::TagValues || self.pending.read {
            return;
        }
        let last = match self.refresher.last_read_time {
            Some(t) => t,
            None => return,
        };
        if now_ms < last || now_ms - last < AUTO_REFRESH_INTERVAL_MS {
            return;
        }
        let server = match &self.refresher.server {
            Some(s) => s.clone(),
            None => return,
        };
        if self.refresher.tag_ids.len() == 0 {
            return;
        }
        let tag_ids = copy_tags(&self.refresher.tag_ids);
        self.effects.push(Effect::ReadValues { server, tag_ids });
        self.pending.read = true;
    }
}

/// A copy of a list of tags.
pub fn copy_tags(v: &Vec<String>) -> (r: Vec<String>)
    ensures
        strs(r@) == strs(v@),
{
    let mut out: Vec<String> = Vec::new();
    let mut i: usize = 0;
    while i < v.len()
        invariant
            i <= v@.len(),
            out@.len() == i,
            forall|j: int| 0 <= j < i ==> (#[trigger] out@[j])@ == v@[j]@,
        decreases v@.len() - i,
    {
        out.push(v[i].clone());
        i = i + 1;
    }
    assert(strs(out@) =~= strs(v@));
    out
}

/// Message summarising a read of `total` values, `errors` of them failed and `bad` of
/// the others of bad quality.
pub open spec fn spec_read_summary(total: nat, errors: nat, bad: nat) -> Seq<char> {
    let head = "Read "@ + spec_decimal(total) + " tag values"@;
    if errors > 0 && bad > 0 {
        head + " (⚠ "@ + spec_decimal(errors) + " errors, "@ + spec_decimal(bad) + " bad quality)"@
    } else if errors > 0 {
        head + " (⚠ "@ + spec_decimal(errors) + " errors)"@
    } else if bad > 0 {
        head + " (⚠ "@ + spec_decimal(bad) + " bad quality)"@
    } else {
        head
    }
}

/// Number of reads among `values` that failed.
pub open spec fn count_failed_reads(values: Seq<TagValue>) -> nat
    decreases values.len(),
{
    if values.len() == 0 {
        0
    } else {
        count_failed_reads(values.drop_last()) + if values.last().outcome is Err {
            1nat
        } else {
            0nat
        }
    }
}

/// Number of reads among `values` that succeeded with a bad quality.
pub open spec fn count_bad_reads(values: Seq<TagValue>) -> nat
    decreases values.len(),
{
    if values.len() == 0 {
        0
    } else {
        count_bad_reads(values.drop_last()) + if values.last().outcome is Ok
            && spec_quality_major(values.last().quality.0) == 0 {
            1nat
        } else {
            0nat
        }
    }
}

/// Builds the read summary message.
pub fn read_summary_message(total: usize, errors: usize, bad: usize) -> (r: String)
    ensures
        r@ == spec_read_summary(total as nat, errors as nat, bad as nat),
{
    let t = usize_to_string(total);
    let a = concat_str("Read ", t.as_str());
    let head = a.concat(" tag values");
    let e = usize_to_string(errors);
    let b = usize_to_string(bad);
    proof {
        reveal_strlit("Read ");
        reveal_strlit(" tag values");
        reveal_strlit(" (⚠ ");
        reveal_strlit(" errors, ");
        reveal_strlit(" bad quality)");
        reveal_strlit(" errors)");
    }
    if errors > 0 && bad > 0 {
        let x = concat_str(head.as_str(), " (⚠ ");
        let x = x.concat(e.as_str());
        let x = x.concat(" errors, ");
        let x = x.concat(b.as_str());
        x.concat(" bad quality)")
    } else if errors > 0 {
        let x = concat_str(head.as_str(), " (⚠ ");
        let x = x.concat(e.as_str());
        x.concat(" errors)")
    } else if bad > 0 {
        let x = concat_str(head.as_str(), " (⚠ ");
        let x = x.concat(b.as_str());
        x.concat(" bad quality)")
    } else {
        head
    }
}

/// What a key asks of the application.
#[derive(Debug, Clone, Copy, PartialEq, Eq, Structural)]
pub enum Command {
    /// Nothing.
    Nothing,
    /// Leave the application.
    Quit,
    /// Leave the screen for its parent.
    GoBack,
    /// Highlight the next row.
    Next,
    /// Highlight the previous row.
    Prev,
    /// Move the highlight down a page.
    PageDown,
    /// Move the highlight up a page.
    PageUp,
    /// Enumerate the servers on the typed host.
    FetchServers,
    /// Type a character of the host name.
    TypeHost(char),
    /// Erase the last character of the host name.
    EraseHost,
    /// Browse the highlighted server.
    BrowseTags,
    /// Start a search.
    EnterSearch,
    /// End the search.
    ExitSearch,
    /// Type a character of the search.
    SearchType(char),
    /// Erase the last character of the search.
    SearchErase,
    /// Highlight the next match.
    NextMatch,
    /// Highlight the previous match.
    PrevMatch,
    /// End the search and read the selected tags.
    ExitSearchAndRead,
    /// Toggle the highlighted tag's selection.
    ToggleSelection,
    /// Read the selected tags.
    ReadValues,
    /// Open the write dialog.
    EnterWrite,
    /// Submit the write dialog.
    SubmitWrite,
    /// Type a character of the value to write.
    TypeWrite(char),
    /// Erase the last character of the value to write.
    EraseWrite,
}

/// `q` or `Q`.
pub open spec fn is_quit_char(c: char) -> bool {
    c == 'q' || c == 'Q'
}

/// The moves shared by the list screens: Esc goes back, the arrows and page keys move
/// the highlight.
pub open spec fn list_command(key: Key) -> Command {
    match key {
        Key::Esc => Command::GoBack,
        Key::PageDown => Command::PageDown,
        Key::PageUp => Command::PageUp,
        Key::Down => Command::Next,
        Key::Up => Command::Prev,
        _ => Command::Nothing,
    }
}

/// The command a key gives on a screen (`searching` tells whether the tag search is on).
pub open spec fn spec_command_for(screen: CurrentScreen, searching: bool, key: Key) -> Command {
    match screen {
        CurrentScreen::Home => match key {
            Key::Enter => Command::FetchServers,
            Key::Char(c) => Command::TypeHost(c),
            Key::Backspace => Command::EraseHost,
            Key::Esc => Command::Quit,
            _ => Command::Nothing,
        },
        CurrentScreen::ServerList => match key {
            Key::Enter => Command::BrowseTags,
            Key::Char(c) => if is_quit_char(c) { Command::Quit } else { Command::Nothing },
            _ => list_command(key),
        },
        CurrentScreen::TagList => if searching {
            match key {
                Key::Esc => Command::ExitSearch,
                Key::Backspace => Command::SearchErase,
                Key::Tab => Command::NextMatch,
                Key::BackTab => Command::PrevMatch,
                Key::Enter => Command::ExitSearchAndRead,
                Key::Char(c) => if c == ' ' { Command::ToggleSelection } else { Command::SearchType(c) },
                _ => Command::Nothing,
            }
        } else {
            match key {
                Key::Enter => Command::ReadValues,
                Key::Char(c) => if c == ' ' {
                    Command::ToggleSelection
                } else if c == 's' || c == 'S' {
                    Command::EnterSearch
                } else if is_quit_char(c) {
                    Command::Quit
                } else {
                    Command::Nothing
                },
                _ => list_command(key),
            }
        },
        CurrentScreen::TagValues => match key {
            Key::Char(c) => if c == 'w' || c == 'W' {
                Command::EnterWrite
            } else if is_quit_char(c) {
                Command::Quit
            } else {
                Command::Nothing
            },
            _ => list_command(key),
        },
        CurrentScreen::WriteInput => match key {
            Key::Enter => Command::SubmitWrite,
            Key::Esc => Command::GoBack,
            Key::Char(c) => Command::TypeWrite(c),
            Key::Backspace => Command::EraseWrite,
            _ => Command::Nothing,
        },
        CurrentScreen::Loading => if key == Key::Esc { Command::GoBack } else { Command::Nothing },
        CurrentScreen::Exiting => Command::Nothing,
    }
}

/// On a list screen (servers, tags when not searching, values), a key press whose effect
/// is carried out moves the highlight: the Down arrow one row down and the Up arrow one
/// row up, each staying put at its end of the list, and the screen is kept.
pub proof fn law_arrows_move_highlight(old: App, new: App, key: Key, float_bits: Option<u64>)
    requires
        old.nav.current_screen == CurrentScreen::ServerList || (old.nav.current_screen == CurrentScreen::TagList
            && !old.search.search_mode) || old.nav.current_screen == CurrentScreen::TagValues,
        command_effect(old, new, spec_command_for(old.nav.current_screen, old.search.search_mode, key), float_bits),
    ensures
        key == Key::Down ==> (old.view.selected_index matches Some(i) ==> (i + 1 < spec_row_count(&old)
            ==> new.view.selected_index == Some((i + 1) as usize))),
        key == Key::Down ==> (old.view.selected_index matches Some(i) ==> (i + 1 >= spec_row_count(&old)
            ==> new.view.selected_index == old.view.selected_index)),
        key == Key::Up ==> (old.view.selected_index matches Some(i) ==> (i > 0 ==> new.view.selected_index == Some(
            (i - 1) as usize,
        ))),
        key == Key::Up ==> (old.view.selected_index == Some(0usize) ==> new.view.selected_index == Some(0usize)),
        (key == Key::Down || key == Key::Up) ==> new.nav.current_screen == old.nav.current_screen,
{
}

/// A string after erasing its last character (unchanged when empty).
pub open spec fn erased(s: Seq<char>) -> Seq<char> {
    if s.len() > 0 { s.drop_last() } else { s }
}

/// What carrying out `cmd` does (`float_bits` is the write dialog's text read as a float).
pub open spec fn command_effect(old: App, new: App, cmd: Command, float_bits: Option<u64>) -> bool {
    match cmd {
        Command::Nothing => new == old,
        Command::Quit => new.nav.current_screen == CurrentScreen::Exiting && new.nav.previous_screen
            == old.nav.current_screen && new.view == old.view,
        Command::GoBack => went_back(old, new),
        Command::Next => new.view.selected_index == spec_select_next(old.view.selected_index, spec_row_count(&old))
            && new.nav == old.nav,
        Command::Prev => new.view.selected_index == spec_select_prev(old.view.selected_index) && new.nav == old.nav,
        Command::PageDown => new.view.selected_index == spec_page_down(old.view.selected_index, spec_row_count(&old))
            && new.nav == old.nav,
        Command::PageUp => new.view.selected_index == spec_page_up(old.view.selected_index) && new.nav == old.nav,
        Command::FetchServers => fetch_started(old, new),
        Command::TypeHost(c) => new.nav.host_input@ == old.nav.host_input@.push(c) && new.nav.current_screen
            == old.nav.current_screen && new.view == old.view,
        Command::EraseHost => new.nav.host_input@ == erased(old.nav.host_input@) && new.nav.current_screen
            == old.nav.current_screen && new.view == old.view,
        Command::BrowseTags => browse_started(old, new),
        Command::EnterSearch => search_entered(old, new),
        Command::ExitSearch => search_exited(old, new),
        Command::SearchType(c) => search_typed(old, new, c),
        Command::SearchErase => search_erased(old, new),
        Command::NextMatch => moved_to_next_match(old, new),
        Command::PrevMatch => moved_to_prev_match(old, new),
        Command::ExitSearchAndRead => exists|mid: App| search_exited(old, mid) && read_started(mid, new),
        Command::ToggleSelection => selection_toggled(old, new),
        Command::ReadValues => read_started(old, new),
        Command::EnterWrite => write_mode_entered(old, new),
        Command::SubmitWrite => write_submitted(old, new, float_bits),
        Command::TypeWrite(c) => new.dialog.write_value_input@ == old.dialog.write_value_input@.push(c)
            && new.nav == old.nav && new.view == old.view,
        Command::EraseWrite => new.dialog.write_value_input@ == erased(old.dialog.write_value_input@)
            && new.nav == old.nav && new.view == old.view,
    }
}

/// The command a key gives on a screen (`searching` tells whether the tag search is on).
pub fn command_for(screen: CurrentScreen, searching: bool, key: Key) -> (r: Command)
    ensures
        r == spec_command_for(screen, searching, key),
{
    let list = match key {
        Key::Esc => Command::GoBack,
        Key::PageDown => Command::PageDown,
        Key::PageUp => Command::PageUp,
        Key::Down => Command::Next,
        Key::Up => Command::Prev,
        _ => Command::Nothing,
    };
    match screen {
        CurrentScreen::Home => match key {
            Key::Enter => Command::FetchServers,
            Key::Char(c) => Command::TypeHost(c),
            Key::Backspace => Command::EraseHost,
            Key::Esc => Command::Quit,
            _ => Command::Nothing,
        },
        CurrentScreen::ServerList => match key {
            Key::Enter => Command::BrowseTags,
            Key::Char(c) => if c == 'q' || c == 'Q' { Command::Quit } else { Command::Nothing },
            _ => list,
        },
        CurrentScreen::TagList => if searching {
            match key {
                Key::Esc => Command::ExitSearch,
                Key::Backspace => Command::SearchErase,
                Key::Tab => Command::NextMatch,
                Key::BackTab => Command::PrevMatch,
                Key::Enter => Command::ExitSearchAndRead,
                Key::Char(c) => if c == ' ' { Command::ToggleSelection } else { Command::SearchType(c) },
                _ => Command::Nothing,
            }
        } else {
            match key {
                Key::Enter => Command::ReadValues,
                Key::Char(c) => if c == ' ' {
                    Command::ToggleSelection
                } else if c == 's' || c == 'S' {
                    Command::EnterSearch
                } else if c == 'q' || c == 'Q' {
                    Command::Quit
                } else {
                    Command::Nothing
                },
                _ => list,
            }
        },
        CurrentScreen::TagValues => match key {
            Key::Char(c) => if c == 'w' || c == 'W' {
                Command::EnterWrite
            } else if c == 'q' || c == 'Q' {
                Command::Quit
            } else {
                Command::Nothing
            },
            _ => list,
        },
        CurrentScreen::WriteInput => match key {
            Key::Enter => Command::SubmitWrite,
            Key::Esc => Command::GoBack,
            Key::Char(c) => Command::TypeWrite(c),
            Key::Backspace => Command::EraseWrite,
            _ => Command::Nothing,
        },
        CurrentScreen::Loading => if key == Key::Esc { Command::GoBack } else { Command::Nothing },
        CurrentScreen::Exiting => Command::Nothing,
    }
}

impl App {
    /// Carries out a command.
    pub fn apply_command(&mut self, cmd: Command, float_bits: Option<u64>)
        requires
            old(self).wf(),
        ensures
            final(self).wf(),
            command_effect(*old(self), *final(self), cmd, float_bits),
    {
        match cmd {
            Command::Nothing => {},
            Command::Quit => self.log_transition(CurrentScreen::Exiting),
            Command::GoBack => self.go_back(),
            Command::Next => self.select_next(),
            Command::Prev => self.select_prev(),
            Command::PageDown => self.page_down(),
            Command::PageUp => self.page_up(),
            Command::FetchServers => self.start_fetch_servers(),
            Command::TypeHost(c) => string_push(&mut self.nav.host_input, c),
            Command::EraseHost => {
                let _ = string_pop(&mut self.nav.host_input);
            },
            Command::BrowseTags => self.start_browse_tags(),
            Command::EnterSearch => self.enter_search_mode(),
            Command::ExitSearch => self.exit_search_mode(),
            Command::SearchType(c) => self.update_search_query(c),
            Command::SearchErase => self.search_backspace(),
            Command::NextMatch => self.next_search_match(),
            Command::PrevMatch => self.prev_search_match(),
            Command::ExitSearchAndRead => {
                self.exit_search_mode();
                let ghost mid = *self;
                self.start_read_values();
                assert(search_exited(*old(self), mid) && read_started(mid, *self));
            },
            Command::ToggleSelection => self.toggle_tag_selection(),
            Command::ReadValues => self.start_read_values(),
            Command::EnterWrite => self.enter_write_mode(),
            Command::SubmitWrite => self.start_write_value(float_bits),
            Command::TypeWrite(c) => string_push(&mut self.dialog.write_value_input, c),
            Command::EraseWrite => {
                let _ = string_pop(&mut self.dialog.write_value_input);
            },
        }
    }

    /// Handles a key event.  Only presses count: the key gives a command on the current
    /// screen (see [`spec_command_for`]), which is carried out.  `write_float_bits` is
    /// the write dialog's trimmed text read as a float, as a bit pattern, when it reads
    /// as one.  Returns [`AppAction::Quit`] exactly when the application is leaving.
    pub fn handle_key(&mut self, key: Key, is_press: bool, write_float_bits: Option<u64>) -> (r: AppAction)
        requires
            old(self).wf(),
        ensures
            final(self).wf(),
            !is_press ==> r == AppAction::Continue && *final(self) == *old(self),
            is_press ==> command_effect(
                *old(self),
                *final(self),
                spec_command_for(old(self).nav.current_screen, old(self).search.search_mode, key),
                write_float_bits,
            ),
            is_press ==> (r == AppAction::Quit <==> final(self).nav.current_screen == CurrentScreen::Exiting),
    {
        if !is_press {
            return AppAction::Continue;
        }
        let cmd = command_for(self.nav.current_screen, self.search.search_mode, key);
        self.apply_command(cmd, write_float_bits);
        if self.nav.current_screen == CurrentScreen::Exiting {
            AppAction::Quit
        } else {
            AppAction::Continue
        }
    }
}

/// Builds an application in a chosen state, for tests and demonstrations.
pub struct TestAppBuilder {
    /// Screen shown.
    pub screen: CurrentScreen,
    /// Servers listed.
    pub servers: Vec<String>,
    /// Tags listed.
    pub tags: Vec<String>,
}

impl TestAppBuilder {
    /// A builder for the home screen with no servers or tags.
    pub fn new() -> (r: Self)
        ensures
            r.screen == CurrentScreen::Home,
            r.servers@.len() == 0,
            r.tags@.len() == 0,
    {
        TestAppBuilder { screen: CurrentScreen::Home, servers: Vec::new(), tags: Vec::new() }
    }

    /// Shows `screen`.
    pub fn with_screen(self, screen: CurrentScreen) -> (r: Self)
        ensures
            r.screen == screen,
            r.servers == self.servers,
            r.tags == self.tags,
    {
        TestAppBuilder { screen, ..self }
    }

    /// Lists `servers`.
    pub fn with_servers(self, servers: Vec<String>) -> (r: Self)
        ensures
            r.servers == servers,
            r.screen == self.screen,
            r.tags == self.tags,
    {
        TestAppBuilder { servers, ..self }
    }

    /// Lists `tags`.
    pub fn with_tags(self, tags: Vec<String>) -> (r: Self)
        ensures
            r.tags == tags,
            r.screen == self.screen,
            r.servers == self.servers,
    {
        TestAppBuilder { tags, ..self }
    }

    /// The application: the chosen screen, and the servers and tags listed with the
    /// first row highlighted when there are any.
    pub fn build(self) -> (r: App)
        ensures
            r.wf(),
            r.nav.current_screen == self.screen,
            self.servers@.len() > 0 ==> r.view.servers == self.servers,
            self.tags@.len() > 0 ==> r.view.tags == self.tags,
            (self.servers@.len() > 0 || self.tags@.len() > 0) ==> r.view.selected_index == Some(0usize),
            (self.servers@.len() == 0 && self.tags@.len() == 0) ==> r.view.selected_index is None,
    {
        let mut app = App::new();
        app.nav.current_screen = self.screen;
        if self.servers.len() > 0 {
            app.view.servers = self.servers;
            app.view.selected_index = Some(0);
            app.view.list_selected = Some(0);
        }
        if self.tags.len() > 0 {
            app.search.update_tags(&self.tags);
            app.view.tags = self.tags;
            app.view.selected_index = Some(0);
            app.view.list_selected = Some(0);
        }
        app
    }
}

} // verus!
