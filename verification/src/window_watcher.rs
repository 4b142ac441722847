//! Watching the window of a meeting.
//!
//! The watcher first looks for the window, and then watches it until it is gone or
//! shows something else than the meeting. Some applications use the same window
//! for one meeting after the other, so that it does not disappear in between; there
//! the title tells. Before a meeting has been seen in the title at all, other
//! titles do not count: the application may not have switched to the call yet.
use vstd::prelude::*;

use crate::window::{
    owned_by, primary_of, title_is_chrome, window_exists, WindowInfo,
};

verus! {

/// Time between two looks at the windows.
pub const WINDOW_POLL_MS: u64 = 3000;

/// What a look at the windows has shown.
#[derive(Debug, Clone, PartialEq, Eq)]
pub enum Sighting {
    Nothing,
    /// The window of the meeting was found; this is its title.
    Identified(String),
    /// The window of the meeting is gone, or shows something else.
    Closed,
}

/// What a look at the windows has shown.
pub enum SightingView {
    Nothing,
    Identified(Seq<char>),
    Closed,
}

impl View for Sighting {
    type V = SightingView;

    open spec fn view(&self) -> SightingView {
        match *self {
            Sighting::Nothing => SightingView::Nothing,
            Sighting::Identified(title) => SightingView::Identified(title@),
            Sighting::Closed => SightingView::Closed,
        }
    }
}

/// A window that was found.
pub struct FoundView {
    pub id: u32,
    pub title: Seq<char>,
    pub chrome: bool,
}

/// Watches the window of a meeting.
#[derive(Debug)]
pub struct WindowWatcher {
    owner: String,
    watch_id: Option<u32>,
    saw_meeting_title: bool,
    closed: bool,
}

/// The state of a watcher.
pub struct WatcherView {
    /// Whose windows are looked through.
    pub owner: Seq<char>,
    /// The window of the meeting, once it is found.
    pub watch_id: Option<u32>,
    /// A meeting has been seen in the window's title.
    pub saw_meeting_title: bool,
    /// The meeting was found to be over.
    pub closed: bool,
}

impl WatcherView {
    /// A watcher that has not looked yet.
    pub open spec fn searching(owner: Seq<char>) -> WatcherView {
        WatcherView { owner, watch_id: None, saw_meeting_title: false, closed: false }
    }

    /// A window is watched before it can be closed, and before a meeting can be seen
    /// in its title.
    pub open spec fn wf(self) -> bool {
        &&& self.closed ==> self.watch_id is Some
        &&& self.saw_meeting_title ==> self.watch_id is Some
    }

    /// The state after a search for the window.
    pub open spec fn searched(self, found: Option<FoundView>) -> WatcherView {
        match found {
            Some(f) => WatcherView {
                watch_id: Some(f.id),
                saw_meeting_title: !f.chrome,
                ..self
            },
            None => self,
        }
    }

    /// What a search for the window shows.
    pub open spec fn search_sighting(found: Option<FoundView>) -> SightingView {
        match found {
            Some(f) => SightingView::Identified(f.title),
            None => SightingView::Nothing,
        }
    }

    /// The meeting is over: its window is gone, or it shows another view after a
    /// meeting had been seen in it.
    pub open spec fn over(self, present: bool, chrome: Option<bool>) -> bool {
        !present || (chrome == Some(true) && self.saw_meeting_title)
    }

    /// The state after a look at the window that is watched.
    pub open spec fn checked(self, present: bool, chrome: Option<bool>) -> WatcherView {
        if self.over(present, chrome) {
            WatcherView { closed: true, ..self }
        } else {
            WatcherView {
                saw_meeting_title: self.saw_meeting_title || chrome == Some(false),
                ..self
            }
        }
    }

    /// What a look at the window that is watched shows.
    pub open spec fn check_sighting(self, present: bool, chrome: Option<bool>) -> SightingView {
        if self.over(present, chrome) {
            SightingView::Closed
        } else {
            SightingView::Nothing
        }
    }
}

/// The window that a search among the windows on the screen finds.
pub open spec fn search(owner: Seq<char>, on_screen: Seq<WindowInfo>) -> Option<FoundView> {
    match crate::window::primary(on_screen, crate::window::owned_flags(on_screen, owner)) {
        Some(i) => Some(
            FoundView {
                id: crate::window::number_or_zero(on_screen[i]),
                title: crate::window::title_shown(on_screen[i]),
                chrome: on_screen[i].chrome,
            },
        ),
        None => None,
    }
}

/// There is a window with this number.
pub open spec fn present(windows: Seq<WindowInfo>, id: u32) -> bool {
    exists|i: int| 0 <= i < windows.len() && (#[trigger] windows[i]).number == Some(id)
}

impl View for WindowWatcher {
    type V = WatcherView;

    closed spec fn view(&self) -> WatcherView {
        WatcherView {
            owner: self.owner@,
            watch_id: self.watch_id,
            saw_meeting_title: self.saw_meeting_title,
            closed: self.closed,
        }
    }
}

impl WindowWatcher {
    /// A watcher for the windows of `owner`.
    pub fn start(owner: String) -> (watcher: WindowWatcher)
        ensures
            watcher@ == WatcherView::searching(owner@),
            watcher@.wf(),
    {
        WindowWatcher { owner, watch_id: None, saw_meeting_title: false, closed: false }
    }

    /// Whether the meeting was found to be over; there is nothing more to watch.
    pub fn is_closed(&self) -> (closed: bool)
        ensures
            closed == self@.closed,
    {
        self.closed
    }

    /// Takes in a search for the window: its number, its title, and whether the
    /// title is that of another view than a meeting.
    pub fn searched(&mut self, found: Option<(u32, String, bool)>) -> (sighting: Sighting)
        requires
            old(self)@.wf(),
            old(self)@.watch_id is None,
        ensures
            final(self)@.wf(),
            ({
                let f = match found {
                    Some((id, title, chrome)) => Some(FoundView { id, title: title@, chrome }),
                    None => None,
                };
                &&& final(self)@ == old(self)@.searched(f)
                &&& sighting@ == WatcherView::search_sighting(f)
            }),
    {
        match found {
            Some((id, title, chrome)) => {
                if !chrome {
                    self.saw_meeting_title = true;
                }
                self.watch_id = Some(id);
                Sighting::Identified(title)
            },
            None => Sighting::Nothing,
        }
    }

    /// Takes in a look at the window that is watched: whether there still is such a
    /// window, and whether its title, if it has one, is that of another view than a
    /// meeting.
    pub fn checked(&mut self, present: bool, chrome: Option<bool>) -> (sighting: Sighting)
        requires
            old(self)@.wf(),
            old(self)@.watch_id is Some,
            !old(self)@.closed,
        ensures
            final(self)@.wf(),
            final(self)@ == old(self)@.checked(present, chrome),
            sighting@ == old(self)@.check_sighting(present, chrome),
    {
        if !present {
            self.closed = true;
            return Sighting::Closed;
        }
        match chrome {
            Some(other) => {
                if other {
                    if self.saw_meeting_title {
                        self.closed = true;
                        return Sighting::Closed;
                    }
                } else {
                    self.saw_meeting_title = true;
                }
            },
            None => {},
        }
        Sighting::Nothing
    }

    /// One look at the windows: `on_screen` are those on the screen, `windows` all
    /// of them.
    pub fn tick(
        &mut self,
        on_screen: &Vec<WindowInfo>,
        windows: &Vec<WindowInfo>,
    ) -> (sighting: Sighting)
        requires
            old(self)@.wf(),
        ensures
            final(self)@.wf(),
            final(self)@ == old(self)@.ticked(on_screen@, windows@),
            sighting@ == old(self)@.sighted(on_screen@, windows@),
            old(self)@.watch_id matches Some(id) && !old(self)@.closed && (exists|i: int|
                0 <= i < windows@.len() && (#[trigger] windows@[i]).number == Some(id)) && !(
            old(self)@.saw_meeting_title && (exists|i: int|
                0 <= i < windows@.len() && (#[trigger] windows@[i]).number == Some(id)
                    && windows@[i].chrome)) ==> sighting is Nothing,
            old(self)@.watch_id matches Some(id) && !old(self)@.closed && (forall|i: int|
                0 <= i < windows@.len() ==> (#[trigger] windows@[i]).number != Some(id))
                ==> sighting is Closed,
    {
        if self.closed {
            return Sighting::Nothing;
        }
        match self.watch_id {
            None => {
                let of_owner: Vec<bool> = owned_by(on_screen, self.owner.as_str());
                let found: Option<(u32, String, bool)> = match primary_of(on_screen, &of_owner) {
                    Some(i) => match on_screen[i].number {
                        Some(id) => Some((id, on_screen[i].shown_title(), on_screen[i].chrome)),
                        None => None,
                    },
                    None => None,
                };
                self.searched(found)
            },
            Some(id) => {
                let present: bool = window_exists(windows, id);
                let chrome: Option<bool> = title_is_chrome(windows, id);
                self.checked(present, chrome)
            },
        }
    }
}

impl WatcherView {
    /// The state after one look at the windows.
    pub open spec fn ticked(
        self,
        on_screen: Seq<WindowInfo>,
        windows: Seq<WindowInfo>,
    ) -> WatcherView {
        if self.closed {
            self
        } else {
            match self.watch_id {
                None => self.searched(search(self.owner, on_screen)),
                Some(id) => self.checked(
                    present(windows, id),
                    crate::window::shows_chrome(windows, id),
                ),
            }
        }
    }

    /// What one look at the windows shows.
    pub open spec fn sighted(
        self,
        on_screen: Seq<WindowInfo>,
        windows: Seq<WindowInfo>,
    ) -> SightingView {
        if self.closed {
            SightingView::Nothing
        } else {
            match self.watch_id {
                None => WatcherView::search_sighting(search(self.owner, on_screen)),
                Some(id) => self.check_sighting(
                    present(windows, id),
                    crate::window::shows_chrome(windows, id),
                ),
            }
        }
    }

    /// The state after a course of looks, each at the windows on the screen and at
    /// all windows.
    pub open spec fn run(self, looks: Seq<(Seq<WindowInfo>, Seq<WindowInfo>)>) -> WatcherView
        decreases looks.len(),
    {
        if looks.len() == 0 {
            self
        } else {
            self.run(looks.drop_last()).ticked(looks.last().0, looks.last().1)
        }
    }

    /// What the look at position `i` of a course of looks shows.
    pub open spec fn sighting_at(
        self,
        looks: Seq<(Seq<WindowInfo>, Seq<WindowInfo>)>,
        i: int,
    ) -> SightingView {
        self.run(looks.take(i)).sighted(looks[i].0, looks[i].1)
    }
}

/// A course of looks that has been closed or has found its window stays so.
proof fn lemma_run_keeps(w: WatcherView, looks: Seq<(Seq<WindowInfo>, Seq<WindowInfo>)>, i: int)
    requires
        w.wf(),
        0 <= i <= looks.len(),
    ensures
        w.run(looks).wf(),
        w.run(looks.take(i)).closed ==> w.run(looks).closed,
        w.run(looks.take(i)).watch_id is Some ==> w.run(looks).watch_id == w.run(
            looks.take(i),
        ).watch_id,
    decreases looks.len(),
{
    if i == looks.len() {
        assert(looks.take(i) =~= looks);
        if looks.len() > 0 {
            lemma_run_keeps(w, looks.drop_last(), 0);
        }
    } else {
        lemma_run_keeps(w, looks.drop_last(), i);
        assert(looks.drop_last().take(i) =~= looks.take(i));
    }
}

/// Whatever the windows do, the meeting's window is identified once at most, its
/// end is told once at most, and only after it was identified.
pub proof fn law_identified_then_closed_once(
    owner: Seq<char>,
    looks: Seq<(Seq<WindowInfo>, Seq<WindowInfo>)>,
    i: int,
    j: int,
)
    requires
        0 <= i < j < looks.len(),
    ensures
        ({
            let w = WatcherView::searching(owner);
            let first = w.sighting_at(looks, i);
            let second = w.sighting_at(looks, j);
            &&& !(first is Identified && second is Identified)
            &&& !(first is Closed && second is Closed)
            &&& !(first is Closed && second is Identified)
        }),
{
    let w = WatcherView::searching(owner);
    lemma_run_keeps(w, looks.take(i), 0);
    let mid = looks.take(i + 1);
    assert(mid.drop_last() =~= looks.take(i));
    assert(mid.last() == looks[i]);
    assert(w.run(mid) == w.run(looks.take(i)).ticked(looks[i].0, looks[i].1));
    lemma_run_keeps(w, looks.take(j), i + 1);
    assert(looks.take(j).take(i + 1) =~= mid);
}

/// The end of a meeting is told only of a window that was identified before.
pub proof fn law_closed_after_identified(
    owner: Seq<char>,
    looks: Seq<(Seq<WindowInfo>, Seq<WindowInfo>)>,
    j: int,
)
    requires
        0 <= j < looks.len(),
        WatcherView::searching(owner).sighting_at(looks, j) is Closed,
    ensures
        exists|i: int|
            0 <= i < j && #[trigger] WatcherView::searching(owner).sighting_at(
                looks,
                i,
            ) is Identified,
{
    let w = WatcherView::searching(owner);
    lemma_found_was_identified(w, looks, j);
}

/// A window that is watched after `n` looks was identified by one of them.
proof fn lemma_found_was_identified(
    w: WatcherView,
    looks: Seq<(Seq<WindowInfo>, Seq<WindowInfo>)>,
    n: int,
)
    requires
        0 <= n <= looks.len(),
        w.wf(),
        w.watch_id is None,
        w.run(looks.take(n)).watch_id is Some,
    ensures
        exists|i: int| 0 <= i < n && #[trigger] w.sighting_at(looks, i) is Identified,
    decreases n,
{
    if n > 0 {
        let before = looks.take(n - 1);
        assert(looks.take(n).drop_last() =~= before);
        assert(looks.take(n).last() == looks[n - 1]);
        lemma_run_keeps(w, before, 0);
        if w.run(before).watch_id is Some {
            lemma_found_was_identified(w, looks, n - 1);
        } else {
            assert(w.sighting_at(looks, n - 1) is Identified);
        }
    }
}

/// A window that shows another view from the start does not end the meeting before
/// a meeting has been seen in its title; a window that is gone does.
pub proof fn law_title_ends_only_after_meeting(w: WatcherView, windows: Seq<WindowInfo>, id: u32)
    requires
        w.wf(),
        !w.closed,
        w.watch_id == Some(id),
    ensures
        !present(windows, id) ==> w.sighted(windows, windows) is Closed,
        present(windows, id) && !w.saw_meeting_title ==> w.sighted(windows, windows) is Nothing,
{
}

/// Once a window is watched, what a look shows and what it leaves does not depend on
/// which windows are on the screen: a window that is minimised is not gone.
pub proof fn law_watched_window_may_leave_the_screen(
    w: WatcherView,
    on_screen: Seq<WindowInfo>,
    other_screen: Seq<WindowInfo>,
    windows: Seq<WindowInfo>,
)
    requires
        w.watch_id is Some,
    ensures
        w.sighted(on_screen, windows) == w.sighted(other_screen, windows),
        w.ticked(on_screen, windows) == w.ticked(other_screen, windows),
{
}

/// Before a window is watched, what a look shows and what it leaves depends on the
/// windows on the screen alone.
pub proof fn law_window_is_looked_for_on_the_screen(
    w: WatcherView,
    on_screen: Seq<WindowInfo>,
    windows: Seq<WindowInfo>,
    others: Seq<WindowInfo>,
)
    requires
        w.watch_id is None,
    ensures
        w.sighted(on_screen, windows) == w.sighted(on_screen, others),
        w.ticked(on_screen, windows) == w.ticked(on_screen, others),
{
}

/// The meeting goes on as long as its window is among all windows, wherever that is, and
/// shows the meeting or has no title; that a meeting was seen in the title is kept, and
/// the same window is watched on.
pub proof fn law_meeting_goes_on_with_its_window(
    w: WatcherView,
    on_screen: Seq<WindowInfo>,
    windows: Seq<WindowInfo>,
    i: int,
)
    requires
        !w.closed,
        0 <= i < windows.len(),
        windows[i].number is Some,
        w.watch_id == windows[i].number,
        forall|j: int| 0 <= j < i ==> (#[trigger] windows[j]).number != windows[i].number,
    ensures
        ({
            let titled = windows[i].name is Some && windows[i].name->0@.len() > 0;
            let after = w.ticked(on_screen, windows);
            &&& !titled ==> w.sighted(on_screen, windows) is Nothing && after == w
            &&& titled && !windows[i].chrome ==> w.sighted(on_screen, windows) is Nothing && after
                == (WatcherView { saw_meeting_title: true, ..w })
            &&& titled && windows[i].chrome && !w.saw_meeting_title ==> w.sighted(
                on_screen,
                windows,
            ) is Nothing && after == w
            &&& titled && windows[i].chrome && w.saw_meeting_title ==> w.sighted(
                on_screen,
                windows,
            ) is Closed && after == (WatcherView { closed: true, ..w })
        }),
{
    crate::window::law_view_of_numbered_window(windows, windows[i].number->0, i);
}

/// The meeting is over as soon as its window is not among all windows any more, and then
/// nothing more is told.
pub proof fn law_meeting_ends_with_its_window(
    w: WatcherView,
    on_screen: Seq<WindowInfo>,
    windows: Seq<WindowInfo>,
    id: u32,
)
    requires
        w.watch_id == Some(id),
        forall|j: int| 0 <= j < windows.len() ==> (#[trigger] windows[j]).number != Some(id),
    ensures
        !w.closed ==> w.sighted(on_screen, windows) is Closed && w.ticked(on_screen, windows) == (
        WatcherView { closed: true, ..w }),
        w.closed ==> w.sighted(on_screen, windows) is Nothing && w.ticked(on_screen, windows) == w,
{
}

/// The window that is found is the most prominent one of the owner on the screen: it is
/// told by its title, it is watched from then on, and a meeting counts as seen in its
/// title unless that is another view's. Where there is none the search goes on.
pub proof fn law_window_is_identified(
    w: WatcherView,
    on_screen: Seq<WindowInfo>,
    windows: Seq<WindowInfo>,
)
    requires
        !w.closed,
        w.watch_id is None,
    ensures
        match crate::window::primary(
            on_screen,
            on_screen.map_values(|v: WindowInfo| crate::window::owned(v, w.owner)),
        ) {
            Some(i) => {
                let v = on_screen[i];
                &&& w.sighted(on_screen, windows) matches SightingView::Identified(title) && title
                    == crate::window::title_shown(v)
                &&& v.number is Some
                &&& w.ticked(on_screen, windows) == (WatcherView {
                    owner: w.owner,
                    watch_id: v.number,
                    saw_meeting_title: !v.chrome,
                    closed: false,
                })
            },
            None => w.sighted(on_screen, windows) is Nothing && w.ticked(on_screen, windows) == w,
        },
{
    let flags = crate::window::owned_flags(on_screen, w.owner);
    assert(flags =~= on_screen.map_values(|v: WindowInfo| crate::window::owned(v, w.owner)));
    if on_screen.len() > 0 {
        crate::window::law_most_prominent_window(on_screen, flags, 0);
    } else {
        crate::window::law_largest(
            on_screen,
            crate::window::watchable_flags(on_screen, flags),
        );
    }
}

/// What is said of a sighting is what it holds.
pub proof fn law_sighting_says_what_it_holds(title: String)
    ensures
        Sighting::Identified(title)@ == SightingView::Identified(title@),
        Sighting::Nothing@ is Nothing,
        Sighting::Closed@ is Closed,
{
}

} // verus!
