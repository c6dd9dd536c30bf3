//! The state behind the terminal monitor: tabs, selectable lists and the
//! key handling that moves through them.

use crate::tinydancer::Cluster;
use vstd::prelude::*;

verus! {

/// What the monitor is configured with: the cluster it reports on.
#[derive(Clone, Debug)]
pub struct UiConfig {
    pub cluster: Cluster,
}

/// Which item of a list is selected, and from which item the list is drawn.
#[derive(Clone, Copy, Debug)]
pub struct ListState {
    pub offset: usize,
    pub selected: Option<usize>,
}

impl ListState {
    /// Nothing selected, drawn from the top.
    pub fn new() -> (s: ListState)
        ensures
            s.offset == 0,
            s.selected is None,
    {
        ListState { offset: 0, selected: None }
    }

    /// The selected item, if any.
    pub fn selected(&self) -> (r: Option<usize>)
        ensures
            r == self.selected,
    {
        self.selected
    }

    /// Selects `index`; clearing the selection also scrolls back to the top.
    pub fn select(&mut self, index: Option<usize>)
        ensures
            final(self).selected == index,
            final(self).offset == if index is None {
                0
            } else {
                old(self).offset
            },
    {
        self.selected = index;
        if index.is_none() {
            self.offset = 0;
        }
    }
}

/// A list of items with a selection.
#[derive(Clone, Debug)]
pub struct StatefulList<T> {
    pub state: ListState,
    pub items: Vec<T>,
}

/// The items after one tick: the first item moves to the end.
pub open spec fn rotate_left<T>(s: Seq<T>) -> Seq<T> {
    if s.len() == 0 {
        s
    } else {
        s.drop_first().push(s[0])
    }
}

/// The items after `k` ticks.
pub open spec fn rotate_left_n<T>(s: Seq<T>, k: nat) -> Seq<T>
    decreases k,
{
    if k == 0 {
        s
    } else {
        rotate_left(rotate_left_n(s, (k - 1) as nat))
    }
}

/// After `k` ticks, with `k` at most the length, the list starts at the
/// item that was at position `k`, and the first `k` items follow the rest.
proof fn lemma_rotate_left_n<T>(s: Seq<T>, k: nat)
    requires
        k <= s.len(),
    ensures
        rotate_left_n(s, k) == s.subrange(k as int, s.len() as int) + s.subrange(0, k as int),
    decreases k,
{
    if k == 0 {
        assert(s.subrange(0, s.len() as int) + s.subrange(0, 0) =~= s);
    } else {
        lemma_rotate_left_n(s, (k - 1) as nat);
        let prev = rotate_left_n(s, (k - 1) as nat);
        assert(prev.len() == s.len());
        assert(prev[0] == s[k - 1]);
        assert(prev.drop_first().push(prev[0]) =~= s.subrange(k as int, s.len() as int)
            + s.subrange(0, k as int));
    }
}

/// Law: as many ticks as there are items bring a list back to its order.
pub proof fn lemma_full_rotation_restores<T>(s: Seq<T>)
    ensures
        rotate_left_n(s, s.len()) == s,
{
    lemma_rotate_left_n(s, s.len());
    assert(s.subrange(s.len() as int, s.len() as int) + s.subrange(0, s.len() as int) =~= s);
}

impl<T> StatefulList<T> {
    /// A list of `items` with nothing selected.
    pub fn with_items(items: Vec<T>) -> (l: StatefulList<T>)
        ensures
            l.items == items,
            l.state.selected is None,
            l.state.offset == 0,
    {
        StatefulList { state: ListState::new(), items }
    }

    /// Works out the item after the selected one, wrapping to the first,
    /// and leaves the selection as it is: the next position is computed and
    /// not stored.
    pub fn next(&mut self)
        requires
            old(self).state.selected is Some ==> old(self).items.len() > 0,
        ensures
            *final(self) == *old(self),
    {
        let _i = match self.state.selected() {
            Some(i) => {
                if i >= self.items.len() - 1 {
                    0
                } else {
                    i + 1
                }
            },
            None => 0,
        };
    }

    /// Selects the item before the selected one, wrapping from the first to
    /// the last; with nothing selected, selects the first.
    pub fn previous(&mut self)
        requires
            old(self).state.selected == Some(0usize) ==> old(self).items.len() > 0,
        ensures
            final(self).items == old(self).items,
            final(self).state.offset == old(self).state.offset,
            final(self).state.selected == Some(
                match old(self).state.selected {
                    Some(i) => if i == 0 {
                        (old(self).items.len() - 1) as usize
                    } else {
                        (i - 1) as usize
                    },
                    None => 0usize,
                },
            ),
    {
        let i = match self.state.selected() {
            Some(i) => {
                if i == 0 {
                    self.items.len() - 1
                } else {
                    i - 1
                }
            },
            None => 0,
        };
        self.state.select(Some(i));
    }

    /// Clears the selection.
    pub fn unselect(&mut self)
        ensures
            final(self).items == old(self).items,
            final(self).state.selected is None,
            final(self).state.offset == 0,
    {
        self.state.select(None);
    }

    /// Moves the first item to the end.
    pub fn on_tick(&mut self)
        requires
            old(self).items.len() > 0,
        ensures
            final(self).items@ == rotate_left(old(self).items@),
            final(self).state == old(self).state,
    {
        let item = self.items.remove(0);
        self.items.push(item);
        assert(self.items@ =~= rotate_left(old(self).items@));
    }
}

/// The titled list of slots.
pub struct SlotList {
    pub title: String,
    pub state: StatefulList<usize>,
}

impl SlotList {
    /// A titled list of slots with nothing selected.
    pub fn new(title: String, state: Vec<usize>) -> (l: SlotList)
        ensures
            l.title == title,
            l.state.items == state,
            l.state.state.selected is None,
    {
        SlotList { title, state: StatefulList::with_items(state) }
    }
}

/// The titled list of per-request sampling figures: slot, shreds sampled,
/// data shreds, coding shreds.
pub struct PerRequestSampleStatsList {
    pub title: String,
    pub state: StatefulList<(usize, usize, usize, usize)>,
}

impl PerRequestSampleStatsList {
    /// A titled list of request figures with nothing selected.
    pub fn new(title: String, state: Vec<(usize, usize, usize, usize)>) -> (l:
        PerRequestSampleStatsList)
        ensures
            l.title == title,
            l.state.items == state,
            l.state.state.selected is None,
    {
        PerRequestSampleStatsList { title, state: StatefulList::with_items(state) }
    }
}

/// The titled list of verification figures: slot, verified, failed.
pub struct VerificationStatList {
    pub title: String,
    pub state: StatefulList<(usize, usize, usize)>,
}

impl VerificationStatList {
    /// A titled list of verification figures with nothing selected.
    pub fn new(title: String, state: Vec<(usize, usize, usize)>) -> (l: VerificationStatList)
        ensures
            l.title == title,
            l.state.items == state,
            l.state.state.selected is None,
    {
        VerificationStatList { title, state: StatefulList::with_items(state) }
    }
}

/// The tab titles and the index of the tab shown.
pub struct TabsState {
    pub titles: Vec<String>,
    pub index: usize,
}

/// The tab index after moving right.
pub open spec fn spec_tab_after_next(index: usize) -> int {
    index + 1
}

/// The tab index after moving left among `count` tabs: one to the left, or
/// from the first tab to the last.
pub open spec fn spec_tab_after_previous(index: usize, count: nat) -> int {
    if index > 0 {
        index - 1
    } else {
        count - 1
    }
}

/// Law: moving left undoes moving right.
pub proof fn lemma_previous_undoes_next(index: usize, count: nat)
    requires
        index < usize::MAX,
    ensures
        spec_tab_after_previous((spec_tab_after_next(index)) as usize, count) == index,
{
}

impl TabsState {
    /// The first tab is shown.
    pub fn new(titles: Vec<String>) -> (t: TabsState)
        ensures
            t.titles == titles,
            t.index == 0,
    {
        TabsState { titles, index: 0 }
    }

    /// Moves one tab to the right (the index is not wrapped).
    pub fn next(&mut self)
        requires
            old(self).index < usize::MAX,
        ensures
            final(self).titles == old(self).titles,
            final(self).index == spec_tab_after_next(old(self).index),
    {
        self.index = self.index + 1
    }

    /// Moves one tab to the left, wrapping from the first to the last.
    pub fn previous(&mut self)
        requires
            old(self).index > 0 || old(self).titles.len() > 0,
        ensures
            final(self).titles == old(self).titles,
            final(self).index == spec_tab_after_previous(old(self).index, old(self).titles@.len()),
    {
        if self.index > 0 {
            self.index -= 1;
        } else {
            self.index = self.titles.len() - 1;
        }
    }
}

/// The state of the monitor: its title, tabs and lists, and whether it is to
/// close.
pub struct App {
    pub title: String,
    pub tabs: TabsState,
    pub slot_list: SlotList,
    pub verification_stats_list: VerificationStatList,
    pub per_request_sample_stat_list: PerRequestSampleStatsList,
    pub should_quit: bool,
}

impl App {
    /// A monitor with one tab, `Sampler`, over the given figures. It is set
    /// to close after its first frame.
    pub fn new(
        title: String,
        slot_list: Vec<usize>,
        r_list: Vec<(usize, usize, usize, usize)>,
        v_list: Vec<(usize, usize, usize)>,
    ) -> (a: App)
        ensures
            a.title == title,
            a.tabs.titles@.len() == 1,
            a.tabs.titles@[0]@ == "Sampler"@,
            a.tabs.index == 0,
            a.slot_list.title@ == "SLOTS"@,
            a.slot_list.state.items == slot_list,
            a.per_request_sample_stat_list.title@ == "Request Stats"@,
            a.per_request_sample_stat_list.state.items == r_list,
            a.verification_stats_list.title@ == "Verified Stats"@,
            a.verification_stats_list.state.items == v_list,
            a.should_quit,
    {
        let mut titles: Vec<String> = Vec::new();
        titles.push("Sampler".to_owned());
        App {
            title,
            tabs: TabsState::new(titles),
            slot_list: SlotList::new("SLOTS".to_owned(), slot_list),
            per_request_sample_stat_list: PerRequestSampleStatsList::new(
                "Request Stats".to_owned(),
                r_list,
            ),
            verification_stats_list: VerificationStatList::new(
                "Verified Stats".to_owned(),
                v_list,
            ),
            should_quit: true,
        }
    }

    /// Up selects the previous slot.
    pub fn on_up(&mut self)
        requires
            old(self).slot_list.state.state.selected == Some(0usize)
                ==> old(self).slot_list.state.items.len() > 0,
        ensures
            final(self).slot_list.state.items == old(self).slot_list.state.items,
            final(self).slot_list.state.state.selected == Some(
                match old(self).slot_list.state.state.selected {
                    Some(i) => if i == 0 {
                        (old(self).slot_list.state.items.len() - 1) as usize
                    } else {
                        (i - 1) as usize
                    },
                    None => 0usize,
                },
            ),
            final(self).tabs == old(self).tabs,
            final(self).should_quit == old(self).should_quit,
    {
        self.slot_list.state.previous();
    }

    /// Down works out the next slot and leaves the monitor as it is: the
    /// selection does not move.
    pub fn on_down(&mut self)
        requires
            old(self).slot_list.state.state.selected is Some
                ==> old(self).slot_list.state.items.len() > 0,
        ensures
            *final(self) == *old(self),
    {
        self.slot_list.state.next();
    }

    /// Right moves to the next tab.
    pub fn on_right(&mut self)
        requires
            old(self).tabs.index < usize::MAX,
        ensures
            final(self).tabs.index == spec_tab_after_next(old(self).tabs.index),
            final(self).tabs.titles == old(self).tabs.titles,
            final(self).should_quit == old(self).should_quit,
    {
        self.tabs.next();
    }

    /// Left moves to the previous tab, wrapping from the first to the last.
    pub fn on_left(&mut self)
        requires
            old(self).tabs.index > 0 || old(self).tabs.titles.len() > 0,
        ensures
            final(self).tabs.index == spec_tab_after_previous(
                old(self).tabs.index,
                old(self).tabs.titles@.len(),
            ),
            final(self).tabs.titles == old(self).tabs.titles,
            final(self).should_quit == old(self).should_quit,
    {
        self.tabs.previous();
    }

    /// Each tick rotates the three lists by one item.
    pub fn on_tick(&mut self)
        requires
            old(self).slot_list.state.items.len() > 0,
            old(self).per_request_sample_stat_list.state.items.len() > 0,
            old(self).verification_stats_list.state.items.len() > 0,
        ensures
            final(self).slot_list.state.items@ == rotate_left(old(self).slot_list.state.items@),
            final(self).per_request_sample_stat_list.state.items@ == rotate_left(
                old(self).per_request_sample_stat_list.state.items@,
            ),
            final(self).verification_stats_list.state.items@ == rotate_left(
                old(self).verification_stats_list.state.items@,
            ),
            final(self).tabs == old(self).tabs,
            final(self).should_quit == old(self).should_quit,
    {
        self.slot_list.state.on_tick();
        self.per_request_sample_stat_list.state.on_tick();
        self.verification_stats_list.state.on_tick();
    }

    /// `q` closes the monitor; other keys do nothing.
    pub fn on_key(&mut self, c: char)
        ensures
            final(self).should_quit == (old(self).should_quit || c == 'q'),
            final(self).tabs == old(self).tabs,
            final(self).slot_list == old(self).slot_list,
    {
        match c {
            'q' => {
                self.should_quit = true;
            },
            _ => {},
        }
    }
}

} // verus!
