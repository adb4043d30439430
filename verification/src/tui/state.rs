//! Screens, navigation, dialog and refresh state, and the tag search engine.

use vstd::prelude::*;
use crate::text::{chars_contain, chars_of, is_substring, spec_to_lowercase, string_clear, string_pop, string_push, to_lowercase};

verus! {

/// What the host loop does after a key press.
#[derive(Debug, Clone, Copy, PartialEq, Eq, Structural)]
pub enum AppAction {
    /// Keep running.
    Continue,
    /// Leave the application.
    Quit,
}

/// The screens of the application.
#[derive(Debug, Clone, Copy, PartialEq, Eq, Structural)]
pub enum CurrentScreen {
    /// Host entry.
    Home,
    /// Waiting for background work.
    Loading,
    /// Servers found on the host.
    ServerList,
    /// Tags browsed on a server.
    TagList,
    /// Values read for the selected tags.
    TagValues,
    /// Value entry for a write.
    WriteInput,
    /// Leaving.
    Exiting,
}

/// The name a screen is shown as.
pub open spec fn spec_screen_name(s: CurrentScreen) -> Seq<char> {
    match s {
        CurrentScreen::Home => "Home"@,
        CurrentScreen::Loading => "Loading"@,
        CurrentScreen::ServerList => "ServerList"@,
        CurrentScreen::TagList => "TagList"@,
        CurrentScreen::TagValues => "TagValues"@,
        CurrentScreen::WriteInput => "WriteInput"@,
        CurrentScreen::Exiting => "Exiting"@,
    }
}

impl CurrentScreen {
    /// The name this screen is shown as.
    pub fn name(&self) -> (r: &'static str)
        ensures
            r@ == spec_screen_name(*self),
    {
        proof {
            reveal_strlit("Home");
            reveal_strlit("Loading");
            reveal_strlit("ServerList");
            reveal_strlit("TagList");
            reveal_strlit("TagValues");
            reveal_strlit("WriteInput");
            reveal_strlit("Exiting");
        }
        match self {
            CurrentScreen::Home => "Home",
            CurrentScreen::Loading => "Loading",
            CurrentScreen::ServerList => "ServerList",
            CurrentScreen::TagList => "TagList",
            CurrentScreen::TagValues => "TagValues",
            CurrentScreen::WriteInput => "WriteInput",
            CurrentScreen::Exiting => "Exiting",
        }
    }
}

impl Default for CurrentScreen {
    fn default() -> (r: Self)
        ensures
            r == CurrentScreen::Home,
    {
        CurrentScreen::Home
    }
}

/// The screen shown, the one before it, the host typed in, and the server browsed.
#[derive(Debug)]
pub struct NavigationState {
    /// Screen shown.
    pub current_screen: CurrentScreen,
    /// Screen shown before the current one.
    pub previous_screen: CurrentScreen,
    /// Host typed in.
    pub host_input: String,
    /// Server whose tags were browsed.
    pub browsed_server: Option<String>,
}

impl Default for NavigationState {
    fn default() -> (r: Self)
        ensures
            r.current_screen == CurrentScreen::Home,
            r.previous_screen == CurrentScreen::Home,
            r.host_input@ == "localhost"@,
            r.browsed_server is None,
    {
        proof {
            reveal_strlit("localhost");
        }
        NavigationState {
            current_screen: CurrentScreen::Home,
            previous_screen: CurrentScreen::Home,
            host_input: String::from_str("localhost"),
            browsed_server: None,
        }
    }
}

/// The write dialog: the tag written and the value typed in.
#[derive(Debug)]
pub struct DialogState {
    /// Tag being written.
    pub write_tag_id: Option<String>,
    /// Value typed in.
    pub write_value_input: String,
}

impl Default for DialogState {
    fn default() -> (r: Self)
        ensures
            r.write_tag_id is None,
            r.write_value_input@.len() == 0,
    {
        DialogState { write_tag_id: None, write_value_input: String::new() }
    }
}

impl DialogState {
    /// Forgets the tag and the typed value.
    pub fn clear(&mut self)
        ensures
            final(self).write_tag_id is None,
            final(self).write_value_input@.len() == 0,
    {
        self.write_tag_id = None;
        string_clear(&mut self.write_value_input);
    }
}

/// What is re-read periodically: the server, the tags, and when they were last read.
#[derive(Debug)]
pub struct AutoRefresher {
    /// Server re-read.
    pub server: Option<String>,
    /// Tags re-read.
    pub tag_ids: Vec<String>,
    /// Clock reading of the last completed read, in milliseconds.
    pub last_read_time: Option<u64>,
}

impl Default for AutoRefresher {
    fn default() -> (r: Self)
        ensures
            r.server is None,
            r.tag_ids@.len() == 0,
            r.last_read_time is None,
    {
        AutoRefresher { server: None, tag_ids: Vec::new(), last_read_time: None }
    }
}

impl AutoRefresher {
    /// Stops refreshing: forgets the server, the tags and the last read time.
    pub fn clear(&mut self)
        ensures
            final(self).server is None,
            final(self).tag_ids@.len() == 0,
            final(self).last_read_time is None,
    {
        self.server = None;
        self.tag_ids.clear();
        self.last_read_time = None;
    }
}

/// Positions, in increasing order, of the first `n` lower-cased tags that contain the
/// lower-cased query.
pub open spec fn match_indices(tags_lower: Seq<Seq<char>>, query_lower: Seq<char>, n: int) -> Seq<usize>
    decreases n,
{
    if n <= 0 {
        Seq::empty()
    } else if is_substring(tags_lower[n - 1], query_lower) {
        match_indices(tags_lower, query_lower, n - 1).push((n - 1) as usize)
    } else {
        match_indices(tags_lower, query_lower, n - 1)
    }
}

/// A position is listed by [`match_indices`] among the first `n` tags if and only if it
/// lies below `n` and its tag contains the query.
pub proof fn lemma_match_indices_contains(tags_lower: Seq<Seq<char>>, query_lower: Seq<char>, n: int, i: int)
    requires
        0 <= n <= tags_lower.len(),
        n <= usize::MAX,
        0 <= i <= usize::MAX,
    ensures
        match_indices(tags_lower, query_lower, n).contains(i as usize) <==> (i < n && is_substring(
            tags_lower[i],
            query_lower,
        )),
    decreases n,
{
    if n > 0 {
        lemma_match_indices_contains(tags_lower, query_lower, n - 1, i);
        let prev = match_indices(tags_lower, query_lower, n - 1);
        let cur = match_indices(tags_lower, query_lower, n);
        if cur.contains(i as usize) {
            let k = choose|k: int| 0 <= k < cur.len() && cur[k] == i as usize;
            if k < prev.len() {
                assert(cur[k] == prev[k]);
                assert(prev.contains(i as usize));
            }
        }
        if i < n && is_substring(tags_lower[i], query_lower) {
            if i == n - 1 {
                assert(cur[prev.len() as int] == i as usize);
            } else {
                assert(prev.contains(i as usize));
                let k = choose|k: int| 0 <= k < prev.len() && prev[k] == i as usize;
                assert(cur[k] == prev[k]);
            }
        }
    }
}

/// The positions listed by [`match_indices`] among the first `n` tags lie below `n`, in
/// strictly increasing order.
pub proof fn lemma_match_indices_sorted(tags_lower: Seq<Seq<char>>, query_lower: Seq<char>, n: int)
    requires
        0 <= n <= tags_lower.len(),
        n <= usize::MAX,
    ensures
        forall|j: int|
            0 <= j < match_indices(tags_lower, query_lower, n).len() ==> (#[trigger] match_indices(
                tags_lower,
                query_lower,
                n,
            )[j] as int) < n,
        forall|a: int, b: int|
            0 <= a < b < match_indices(tags_lower, query_lower, n).len() ==> #[trigger] match_indices(
                tags_lower,
                query_lower,
                n,
            )[a] < #[trigger] match_indices(tags_lower, query_lower, n)[b],
    decreases n,
{
    if n > 0 {
        lemma_match_indices_sorted(tags_lower, query_lower, n - 1);
        let prev = match_indices(tags_lower, query_lower, n - 1);
        let cur = match_indices(tags_lower, query_lower, n);
        assert forall|j: int| 0 <= j < cur.len() implies (#[trigger] cur[j] as int) < n by {
            if j < prev.len() {
                assert(cur[j] == prev[j]);
            }
        }
        assert forall|a: int, b: int| 0 <= a < b < cur.len() implies #[trigger] cur[a] < #[trigger] cur[b] by {
            assert(cur[a] == prev[a]);
            if b < prev.len() {
                assert(cur[b] == prev[b]);
            }
        }
    }
}

/// The characters of each string.
pub open spec fn lower_view(s: Seq<String>) -> Seq<Seq<char>> {
    s.map_values(|t: String| t@)
}

/// The match after `i` among `n` matches, wrapping to the first.
pub open spec fn spec_next_index(i: nat, n: nat) -> nat {
    ((i + 1) as int % (n as int)) as nat
}

/// The match before `i` among `n` matches, wrapping to the last.
pub open spec fn spec_prev_index(i: nat, n: nat) -> nat {
    if i == 0 { (n - 1) as nat } else { (i - 1) as nat }
}

/// Incremental search over the browsed tags, case-insensitive, with the positions of
/// the matching tags, a per-tag match mask, and the current match.
#[derive(Debug)]
pub struct SearchEngine {
    /// Whether typing edits the query.
    pub search_mode: bool,
    /// The query.
    pub search_query: String,
    /// Positions of the matching tags, in increasing order.
    pub search_matches: Vec<usize>,
    /// Whether each tag matches.
    pub search_match_mask: Vec<bool>,
    /// Position in `search_matches` of the current match.
    pub search_match_index: usize,
    /// Lower-cased tags.
    pub tags_lowercase: Vec<String>,
}

impl Default for SearchEngine {
    fn default() -> (r: Self)
        ensures
            r.wf(),
            r.search_inv(),
            !r.search_mode,
            r.search_query@.len() == 0,
            r.tags_lowercase@.len() == 0,
    {
        SearchEngine {
            search_mode: false,
            search_query: String::new(),
            search_matches: Vec::new(),
            search_match_mask: Vec::new(),
            search_match_index: 0,
            tags_lowercase: Vec::new(),
        }
    }
}

impl SearchEngine {
    /// The mask covers every tag.
    pub open spec fn wf(&self) -> bool {
        self.search_match_mask@.len() == self.tags_lowercase@.len()
    }

    /// The matches and mask are those of the current query: empty for an empty query,
    /// else the tags containing the query, ignoring case.
    pub open spec fn matches_current(&self) -> bool {
        let lower = lower_view(self.tags_lowercase@);
        let q = spec_to_lowercase(self.search_query@);
        &&& self.wf()
        &&& self.search_query@.len() == 0 ==> self.search_matches@.len() == 0
            && forall|i: int| 0 <= i < self.search_match_mask@.len() ==> !#[trigger] self.search_match_mask@[i]
        &&& self.search_query@.len() > 0 ==> self.search_matches@ == match_indices(lower, q, lower.len() as int)
            && forall|i: int| 0 <= i < self.search_match_mask@.len() ==> #[trigger] self.search_match_mask@[i]
                == is_substring(lower[i], q)
        &&& self.search_match_index == 0
    }

    /// The engine's invariant: one mask entry per tag; the matches are tag positions in
    /// strictly increasing order, exactly those the mask marks; and the current match is
    /// the first or lies among the matches.
    pub open spec fn search_inv(&self) -> bool {
        let m = self.search_matches@;
        &&& self.wf()
        &&& forall|j: int| 0 <= j < m.len() ==> (#[trigger] m[j] as int) < self.search_match_mask@.len()
        &&& forall|a: int, b: int| 0 <= a < b < m.len() ==> #[trigger] m[a] < #[trigger] m[b]
        &&& forall|i: int|
            0 <= i < self.search_match_mask@.len() ==> (#[trigger] self.search_match_mask@[i] <==> m.contains(i as usize))
        &&& self.search_match_index == 0 || self.search_match_index < m.len()
    }

    /// Matches of the current query keep the engine's invariant.
    pub proof fn lemma_current_keeps_inv(&self)
        requires
            self.matches_current(),
        ensures
            self.search_inv(),
    {
        self.law_mask_marks_matches();
        assert(self.tags_lowercase@.len() == self.tags_lowercase.len());
        if self.search_query@.len() > 0 {
            let lower = lower_view(self.tags_lowercase@);
            lemma_match_indices_sorted(lower, spec_to_lowercase(self.search_query@), lower.len() as int);
        }
    }

    /// Whenever the matches are those of the current query (as after every method that
    /// edits the query or the tags), the mask marks a tag if and only if its position is
    /// among the matches.
    pub proof fn law_mask_marks_matches(&self)
        requires
            self.matches_current(),
        ensures
            forall|i: int|
                0 <= i < self.search_match_mask@.len() ==> (#[trigger] self.search_match_mask@[i]
                    <==> self.search_matches@.contains(i as usize)),
    {
        let lower = lower_view(self.tags_lowercase@);
        let q = spec_to_lowercase(self.search_query@);
        assert(self.tags_lowercase@.len() == self.tags_lowercase.len());
        assert forall|i: int| 0 <= i < self.search_match_mask@.len() implies (#[trigger] self.search_match_mask@[i]
            <==> self.search_matches@.contains(i as usize)) by {
            if self.search_query@.len() > 0 {
                lemma_match_indices_contains(lower, q, lower.len() as int, i);
            } else {
                assert(!self.search_matches@.contains(i as usize));
            }
        }
    }

    /// Recomputes the matches of the current query.
    pub fn recompute_matches(&mut self)
        ensures
            final(self).matches_current(),
            final(self).search_inv(),
            final(self).search_query == old(self).search_query,
            final(self).tags_lowercase == old(self).tags_lowercase,
            final(self).search_mode == old(self).search_mode,
    {
        self.recompute_current();
        proof {
            self.lemma_current_keeps_inv();
        }
    }

    fn recompute_current(&mut self)
        ensures
            final(self).matches_current(),
            final(self).search_query == old(self).search_query,
            final(self).tags_lowercase == old(self).tags_lowercase,
            final(self).search_mode == old(self).search_mode,
    {
        self.search_matches = Vec::new();
        let n = self.tags_lowercase.len();
        let mut mask: Vec<bool> = Vec::new();
        let mut k: usize = 0;
        while k < n
            invariant
                n == self.tags_lowercase@.len(),
                k <= n,
                mask@.len() == k,
                forall|i: int| 0 <= i < k ==> !#[trigger] mask@[i],
            decreases n - k,
        {
            mask.push(false);
            k = k + 1;
        }
        self.search_match_mask = mask;
        self.search_match_index = 0;
        if self.search_query.unicode_len() == 0 {
            return;
        }
        let query_lower = to_lowercase(self.search_query.as_str());
        let q = chars_of(query_lower.as_str());
        let ghost lower = lower_view(self.tags_lowercase@);
        let mut idx: usize = 0;
        while idx < n
            invariant
                n == self.tags_lowercase@.len(),
                self.search_query == old(self).search_query,
                self.tags_lowercase == old(self).tags_lowercase,
                self.search_mode == old(self).search_mode,
                self.search_query@.len() > 0,
                lower == lower_view(self.tags_lowercase@),
                q@ == spec_to_lowercase(self.search_query@),
                idx <= n,
                self.search_match_mask@.len() == n,
                self.search_match_index == 0,
                self.search_matches@ == match_indices(lower, q@, idx as int),
                forall|i: int| 0 <= i < idx ==> #[trigger] self.search_match_mask@[i] == is_substring(lower[i], q@),
                forall|i: int| idx <= i < n ==> !#[trigger] self.search_match_mask@[i],
            decreases n - idx,
        {
            let t = chars_of(self.tags_lowercase[idx].as_str());
            assert(lower[idx as int] == self.tags_lowercase@[idx as int]@);
            if chars_contain(&t, &q) {
                self.search_matches.push(idx);
                self.search_match_mask.set(idx, true);
            }
            idx = idx + 1;
        }
    }

    /// Caches the lower-cased `tags`, resets the mask to their number, and recomputes
    /// the matches in search mode (else drops them).
    pub fn update_tags(&mut self, tags: &Vec<String>)
        ensures
            final(self).wf(),
            lower_view(final(self).tags_lowercase@) == tags@.map_values(|t: String| spec_to_lowercase(t@)),
            final(self).search_mode == old(self).search_mode,
            final(self).search_query == old(self).search_query,
            final(self).search_mode ==> final(self).matches_current(),
            final(self).search_inv(),
            !final(self).search_mode ==> final(self).search_matches@.len() == 0 && final(self).search_match_index == 0
                && forall|i: int| 0 <= i < final(self).search_match_mask@.len() ==> !#[trigger] final(self).search_match_mask@[i],
            final(self).search_match_mask@.len() == tags@.len(),
    {
        let mut lower: Vec<String> = Vec::new();
        let mut mask: Vec<bool> = Vec::new();
        let mut i: usize = 0;
        while i < tags.len()
            invariant
                i <= tags@.len(),
                lower@.len() == i,
                mask@.len() == i,
                forall|j: int| 0 <= j < i ==> !#[trigger] mask@[j],
                forall|j: int| 0 <= j < i ==> (#[trigger] lower@[j])@ == spec_to_lowercase(tags@[j]@),
            decreases tags@.len() - i,
        {
            lower.push(to_lowercase(tags[i].as_str()));
            mask.push(false);
            i = i + 1;
        }
        self.tags_lowercase = lower;
        self.search_match_mask = mask;
        assert(lower_view(self.tags_lowercase@) =~= tags@.map_values(|t: String| spec_to_lowercase(t@)));
        if self.search_mode {
            self.recompute_matches();
        } else {
            self.search_matches = Vec::new();
            self.search_match_index = 0;
        }
    }

    /// Enters search mode with an empty query and no matches.
    pub fn enter(&mut self)
        ensures
            final(self).search_mode,
            final(self).search_query@.len() == 0,
            final(self).tags_lowercase == old(self).tags_lowercase,
            final(self).matches_current(),
            final(self).search_inv(),
    {
        self.search_mode = true;
        string_clear(&mut self.search_query);
        self.recompute_matches();
    }

    /// Leaves search mode; the query and matches are kept.
    pub fn exit(&mut self)
        ensures
            !final(self).search_mode,
            final(self).search_query == old(self).search_query,
            final(self).search_matches == old(self).search_matches,
            final(self).search_match_mask == old(self).search_match_mask,
            final(self).search_match_index == old(self).search_match_index,
            final(self).tags_lowercase == old(self).tags_lowercase,
            old(self).search_inv() ==> final(self).search_inv(),
    {
        self.search_mode = false;
    }

    /// Appends `c` to the query and recomputes the matches.
    pub fn push_char(&mut self, c: char)
        ensures
            final(self).search_query@ == old(self).search_query@.push(c),
            final(self).matches_current(),
            final(self).search_inv(),
            final(self).tags_lowercase == old(self).tags_lowercase,
            final(self).search_mode == old(self).search_mode,
    {
        string_push(&mut self.search_query, c);
        self.recompute_matches();
    }

    /// Deletes the last character of the query and recomputes the matches.
    pub fn backspace(&mut self)
        ensures
            old(self).search_query@.len() > 0 ==> final(self).search_query@ == old(self).search_query@.drop_last(),
            old(self).search_query@.len() == 0 ==> final(self).search_query@ == old(self).search_query@,
            final(self).matches_current(),
            final(self).search_inv(),
            final(self).tags_lowercase == old(self).tags_lowercase,
            final(self).search_mode == old(self).search_mode,
    {
        let _ = string_pop(&mut self.search_query);
        self.recompute_matches();
    }

    /// Whether the tag at `idx` matches.
    pub fn is_match(&self, idx: usize) -> (r: bool)
        ensures
            r == (idx < self.search_match_mask@.len() && self.search_match_mask@[idx as int]),
    {
        if idx < self.search_match_mask.len() {
            self.search_match_mask[idx]
        } else {
            false
        }
    }

    /// Advances to the next match, wrapping to the first, and returns its tag position.
    pub fn next_match(&mut self) -> (r: Option<usize>)
        ensures
            old(self).search_matches@.len() == 0 ==> r is None && *final(self) == *old(self),
            old(self).search_matches@.len() > 0 ==> {
                &&& final(self).search_match_index == spec_next_index(
                    old(self).search_match_index as nat,
                    old(self).search_matches@.len(),
                )
                &&& final(self).search_match_index < old(self).search_matches@.len()
                &&& r == Some(old(self).search_matches@[final(self).search_match_index as int])
            },
            final(self).search_matches == old(self).search_matches,
            final(self).search_match_mask == old(self).search_match_mask,
            final(self).search_query == old(self).search_query,
            final(self).tags_lowercase == old(self).tags_lowercase,
            final(self).search_mode == old(self).search_mode,
            old(self).search_inv() ==> final(self).search_inv(),
    {
        let n = self.search_matches.len();
        if n == 0 {
            return None;
        }
        let i0 = self.search_match_index;
        let i = i0 % n;
        proof {
            vstd::arithmetic::div_mod::lemma_add_mod_noop(i0 as int, 1, n as int);
            vstd::arithmetic::div_mod::lemma_mod_bound(i0 as int, n as int);
            if n == 1 {
                assert(1int % 1int == 0);
                assert((i + 1) as int % 1int == 0);
            } else {
                vstd::arithmetic::div_mod::lemma_small_mod(1, n as nat);
                if i + 1 < n {
                    vstd::arithmetic::div_mod::lemma_small_mod((i + 1) as nat, n as nat);
                } else {
                    assert((i + 1) as int % (n as int) == 0) by (nonlinear_arith)
                        requires i + 1 == n, n > 0;
                }
            }
        }
        self.search_match_index = if i + 1 < n { i + 1 } else { 0 };
        Some(self.search_matches[self.search_match_index])
    }

    /// Moves to the previous match, wrapping from the first to the last, and returns its
    /// tag position; none when the new position is beyond the matches.
    pub fn prev_match(&mut self) -> (r: Option<usize>)
        ensures
            old(self).search_matches@.len() == 0 ==> r is None && *final(self) == *old(self),
            old(self).search_matches@.len() > 0 ==> {
                &&& final(self).search_match_index == spec_prev_index(
                    old(self).search_match_index as nat,
                    old(self).search_matches@.len(),
                )
                &&& r == if final(self).search_match_index < old(self).search_matches@.len() {
                    Some(old(self).search_matches@[final(self).search_match_index as int])
                } else {
                    None
                }
            },
            final(self).search_matches == old(self).search_matches,
            final(self).search_match_mask == old(self).search_match_mask,
            final(self).search_query == old(self).search_query,
            final(self).tags_lowercase == old(self).tags_lowercase,
            final(self).search_mode == old(self).search_mode,
            old(self).search_inv() ==> final(self).search_inv(),
    {
        let n = self.search_matches.len();
        if n == 0 {
            return None;
        }
        if self.search_match_index == 0 {
            self.search_match_index = n - 1;
        } else {
            self.search_match_index = self.search_match_index - 1;
        }
        if self.search_match_index < n {
            Some(self.search_matches[self.search_match_index])
        } else {
            None
        }
    }

    /// The tag position of the first match.
    pub fn first_match(&self) -> (r: Option<usize>)
        ensures
            self.search_matches@.len() == 0 ==> r is None,
            self.search_matches@.len() > 0 ==> r == Some(self.search_matches@[0]),
    {
        if self.search_matches.len() == 0 {
            None
        } else {
            Some(self.search_matches[0])
        }
    }
}

/// Stepping to the next match and back returns to the same match.
pub proof fn lemma_next_then_prev(i: nat, n: nat)
    requires
        i < n,
    ensures
        spec_prev_index(spec_next_index(i, n), n) == i,
        spec_next_index(i, n) < n,
{
    if i + 1 < n {
        assert((i + 1) as int % (n as int) == i + 1) by (nonlinear_arith)
            requires 0 <= i + 1 < n;
    } else {
        assert((i + 1) as int % (n as int) == 0) by (nonlinear_arith)
            requires i + 1 == n, n > 0;
    }
}

} // verus!
