//! Which window is the meeting's: choosing among the windows of the system.
//!
//! Widths, heights and areas are compared only, so they are held as order keys: a
//! host gives the bit pattern of the non-negative floating-point value, which
//! orders as the value does.
use vstd::prelude::*;
use vstd::string::*;

use crate::text::{contains, same_text, starts_with, to_lowercase};

verus! {

/// The order key of an area of 10 000 square points; windows below it are
/// auxiliary.
pub const MIN_AREA_KEY: u64 = 0x40C3_8800_0000_0000;

/// The order key of a length of 200 points, the least width and height of a
/// window with participants in it.
pub const MIN_SIDE_KEY: u64 = 0x4069_0000_0000_0000;

/// What the system tells of a window.
#[derive(Debug, Clone, PartialEq, Eq)]
pub struct WindowInfo {
    pub layer: Option<i32>,
    pub owner_name: Option<String>,
    /// The process that owns the window; 0 where it is not told.
    pub owner_pid: u32,
    pub number: Option<u32>,
    pub name: Option<String>,
    /// The window has bounds.
    pub has_bounds: bool,
    /// The order keys of the width, the height and the area.
    pub width: u64,
    pub height: u64,
    pub area: u64,
    /// The shown title is that of a screen before a meeting is joined.
    pub prejoin: bool,
    /// The shown title is that of another view of the application, not of a
    /// meeting.
    pub chrome: bool,
}

/// The window is a normal one, not an overlay or a menu.
pub open spec fn normal_layer(w: WindowInfo) -> bool {
    match w.layer {
        Some(layer) => layer == 0,
        None => true,
    }
}

/// The window's number; 0 where it is not told.
pub open spec fn number_or_zero(w: WindowInfo) -> u32 {
    match w.number {
        Some(n) => n,
        None => 0,
    }
}

/// The window has a name that is not empty.
pub open spec fn named(w: WindowInfo) -> bool {
    w.name matches Some(t) && t@.len() > 0
}

/// The name of the window, or a text in its place.
pub open spec fn title_shown(w: WindowInfo) -> Seq<char> {
    if named(w) {
        w.name->0@
    } else {
        "(active window)"@
    }
}

/// The owner's name contains `owner`, letter case set aside.
pub open spec fn owned(w: WindowInfo, owner: Seq<char>) -> bool {
    crate::text::has_text(
        crate::text::lowercase(crate::text::text_or_empty(crate::text::opt_string(w.owner_name))),
        crate::text::lowercase(owner),
    )
}

/// Which of the windows belong to `owner`.
pub open spec fn owned_flags(windows: Seq<WindowInfo>, owner: Seq<char>) -> Seq<bool> {
    windows.map_values(|w: WindowInfo| owned(w, owner))
}

/// Which of the windows belong to `owner`, letter case set aside.
pub fn owned_by(windows: &Vec<WindowInfo>, owner: &str) -> (flags: Vec<bool>)
    ensures
        flags@ == owned_flags(windows@, owner@),
{
    let lower: String = to_lowercase(owner);
    let mut flags: Vec<bool> = Vec::new();
    let mut i: usize = 0;
    while i < windows.len()
        invariant
            i <= windows@.len(),
            lower@ == crate::text::lowercase(owner@),
            flags@.len() == i,
            forall|k: int| 0 <= k < i ==> #[trigger] flags@[k] == owned(windows@[k], owner@),
        decreases windows@.len() - i,
    {
        let name: String = match &windows[i].owner_name {
            Some(n) => to_lowercase(n.as_str()),
            None => {
                proof {
                    reveal_strlit("");
                    assert(""@ =~= Seq::<char>::empty());
                }
                to_lowercase("")
            },
        };
        flags.push(contains(name.as_str(), lower.as_str()));
        i = i + 1;
    }
    proof {
        assert(flags@ =~= owned_flags(windows@, owner@));
    }
    flags
}

/// Position `i` is the first with a set flag.
pub open spec fn is_first(flags: Seq<bool>, i: int) -> bool {
    0 <= i < flags.len() && flags[i] && forall|j: int| 0 <= j < i ==> !#[trigger] flags[j]
}

/// The first position with a set flag.
pub open spec fn first_set(flags: Seq<bool>) -> Option<int> {
    if exists|i: int| is_first(flags, i) {
        Some(choose|i: int| is_first(flags, i))
    } else {
        None
    }
}

/// Position `i` is the first of those with the largest area among the windows
/// with a set flag.
pub open spec fn is_largest(windows: Seq<WindowInfo>, flags: Seq<bool>, i: int) -> bool {
    &&& 0 <= i < windows.len()
    &&& flags[i]
    &&& forall|j: int|
        0 <= j < windows.len() && #[trigger] flags[j] ==> windows[j].area <= windows[i].area && (j
            < i ==> windows[j].area < windows[i].area)
}

/// The position of the largest window with a set flag, the first of them.
pub open spec fn largest(windows: Seq<WindowInfo>, flags: Seq<bool>) -> Option<int> {
    if exists|i: int| is_largest(windows, flags, i) {
        Some(choose|i: int| is_largest(windows, flags, i))
    } else {
        None
    }
}

/// A position as a number.
pub open spec fn position(i: Option<usize>) -> Option<int> {
    match i {
        Some(i) => Some(i as int),
        None => None,
    }
}

/// There is one first position with a set flag at most, and there is one where a
/// flag is set.
pub proof fn law_first_set(flags: Seq<bool>)
    ensures
        forall|i: int| is_first(flags, i) ==> first_set(flags) == Some(i),
        first_set(flags) is None <==> (forall|i: int| 0 <= i < flags.len() ==> !#[trigger] flags[i]),
{
    assert forall|i: int| is_first(flags, i) implies first_set(flags) == Some(i) by {
        let c = choose|k: int| is_first(flags, k);
        assert(is_first(flags, c));
        if c < i {
            assert(!flags[c]);
        }
        if i < c {
            assert(!flags[i]);
        }
    }
    if exists|i: int| 0 <= i < flags.len() && #[trigger] flags[i] {
        let i = choose|i: int| 0 <= i < flags.len() && #[trigger] flags[i];
        lemma_first_exists(flags, i);
    }
}

/// Where a flag is set there is a first one.
proof fn lemma_first_exists(flags: Seq<bool>, i: int)
    requires
        0 <= i < flags.len(),
        flags[i],
    ensures
        exists|k: int| is_first(flags, k),
    decreases i,
{
    if exists|j: int| 0 <= j < i && #[trigger] flags[j] {
        let j = choose|j: int| 0 <= j < i && #[trigger] flags[j];
        lemma_first_exists(flags, j);
    } else {
        assert(is_first(flags, i));
    }
}

/// There is one largest window at most, and there is one where a flag is set.
pub proof fn law_largest(windows: Seq<WindowInfo>, flags: Seq<bool>)
    requires
        windows.len() == flags.len(),
    ensures
        forall|i: int| is_largest(windows, flags, i) ==> largest(windows, flags) == Some(i),
        largest(windows, flags) is None <==> (forall|i: int|
            0 <= i < flags.len() ==> !#[trigger] flags[i]),
{
    assert forall|i: int| is_largest(windows, flags, i) implies largest(windows, flags) == Some(
        i,
    ) by {
        let c = choose|k: int| is_largest(windows, flags, k);
        assert(is_largest(windows, flags, c));
        assert(flags[c] && flags[i]);
    }
    if exists|i: int| 0 <= i < flags.len() && #[trigger] flags[i] {
        let i = choose|i: int| 0 <= i < flags.len() && #[trigger] flags[i];
        lemma_largest_exists(windows, flags, i);
    }
}

/// Where the flag of a window is set there is a largest one: that window, or one
/// that is larger or comes before it.
proof fn lemma_largest_exists(windows: Seq<WindowInfo>, flags: Seq<bool>, i: int)
    requires
        windows.len() == flags.len(),
        0 <= i < flags.len(),
        flags[i],
    ensures
        exists|k: int| is_largest(windows, flags, k),
    decreases u64::MAX - windows[i].area, i,
{
    let beats = |j: int|
        0 <= j < flags.len() && flags[j] && (windows[j].area > windows[i].area || (windows[j].area
            == windows[i].area && j < i));
    if exists|j: int| #[trigger] beats(j) {
        let j = choose|j: int| #[trigger] beats(j);
        lemma_largest_exists(windows, flags, j);
    } else {
        assert forall|j: int| 0 <= j < windows.len() && #[trigger] flags[j] implies windows[j].area
            <= windows[i].area && (j < i ==> windows[j].area < windows[i].area) by {
            assert(!beats(j));
        }
        assert(is_largest(windows, flags, i));
    }
}

/// The first position with a set flag.
fn find_first(flags: &Vec<bool>) -> (found: Option<usize>)
    ensures
        position(found) == first_set(flags@),
{
    proof {
        law_first_set(flags@);
    }
    let mut i: usize = 0;
    while i < flags.len()
        invariant
            i <= flags@.len(),
            forall|j: int| 0 <= j < i ==> !#[trigger] flags@[j],
            forall|k: int| is_first(flags@, k) ==> first_set(flags@) == Some(k),
        decreases flags@.len() - i,
    {
        if flags[i] {
            proof {
                assert(is_first(flags@, i as int));
            }
            return Some(i);
        }
        i = i + 1;
    }
    None
}

/// The position of the largest window with a set flag, the first of them.
fn find_largest(windows: &Vec<WindowInfo>, flags: &Vec<bool>) -> (found: Option<usize>)
    requires
        windows@.len() == flags@.len(),
    ensures
        position(found) == largest(windows@, flags@),
{
    let mut best: Option<usize> = None;
    let mut i: usize = 0;
    while i < windows.len()
        invariant
            i <= windows@.len(),
            windows@.len() == flags@.len(),
            match best {
                Some(b) => {
                    &&& b < i
                    &&& flags@[b as int]
                    &&& forall|j: int|
                        0 <= j < i && #[trigger] flags@[j] ==> windows@[j].area
                            <= windows@[b as int].area && (j < b ==> windows@[j].area
                            < windows@[b as int].area)
                },
                None => forall|j: int| 0 <= j < i ==> !#[trigger] flags@[j],
            },
        decreases windows@.len() - i,
    {
        if flags[i] {
            let better: bool = match best {
                Some(b) => windows[i].area > windows[b].area,
                None => true,
            };
            if better {
                best = Some(i);
            }
        }
        i = i + 1;
    }
    proof {
        law_largest(windows@, flags@);
        match best {
            Some(b) => {
                assert(is_largest(windows@, flags@, b as int));
            },
            None => {
                assert forall|k: int| !is_largest(windows@, flags@, k) by {
                    if 0 <= k < windows@.len() {
                        assert(!flags@[k]);
                    }
                }
            },
        }
    }
    best
}

/// The window can be the one to watch: a normal window of the right owner, not a
/// tiny one, and with a number.
pub open spec fn watchable(w: WindowInfo, of_owner: bool) -> bool {
    normal_layer(w) && of_owner && w.area >= MIN_AREA_KEY && number_or_zero(w) != 0
}

/// Which of the windows can be the one to watch.
pub open spec fn watchable_flags(windows: Seq<WindowInfo>, of_owner: Seq<bool>) -> Seq<bool> {
    Seq::new(windows.len(), |i: int| watchable(windows[i], of_owner[i]))
}

/// The most prominent window, given which windows are of the right owner.
pub open spec fn primary(windows: Seq<WindowInfo>, of_owner: Seq<bool>) -> Option<int> {
    largest(windows, watchable_flags(windows, of_owner))
}

impl WindowInfo {
    /// The name of the window, or a text in its place.
    pub fn shown_title(&self) -> (title: String)
        ensures
            title@ == title_shown(*self),
    {
        match &self.name {
            Some(name) => {
                if name.as_str().is_empty() {
                    "(active window)".to_owned()
                } else {
                    name.clone()
                }
            },
            None => "(active window)".to_owned(),
        }
    }

    /// Whether the window is a normal one, not an overlay or a menu.
    fn is_normal_layer(&self) -> (normal: bool)
        ensures
            normal == normal_layer(*self),
    {
        match self.layer {
            Some(layer) => layer == 0,
            None => true,
        }
    }

    /// The window's number; 0 where it is not told.
    fn id(&self) -> (id: u32)
        ensures
            id == number_or_zero(*self),
    {
        match self.number {
            Some(n) => n,
            None => 0,
        }
    }
}

/// The position of the most prominent window, given which windows are of the right
/// owner: the largest one that can be watched.
pub fn primary_of(windows: &Vec<WindowInfo>, of_owner: &Vec<bool>) -> (found: Option<usize>)
    requires
        windows@.len() == of_owner@.len(),
    ensures
        position(found) == primary(windows@, of_owner@),
        found matches Some(i) ==> i < windows@.len() && watchable(
            windows@[i as int],
            of_owner@[i as int],
        ),
{
    let mut flags: Vec<bool> = Vec::new();
    let mut i: usize = 0;
    while i < windows.len()
        invariant
            i <= windows@.len(),
            windows@.len() == of_owner@.len(),
            flags@.len() == i,
            forall|k: int|
                0 <= k < i ==> #[trigger] flags@[k] == watchable(windows@[k], of_owner@[k]),
        decreases windows@.len() - i,
    {
        flags.push(
            windows[i].is_normal_layer() && of_owner[i] && windows[i].area >= MIN_AREA_KEY
                && windows[i].id() != 0,
        );
        i = i + 1;
    }
    let found: Option<usize> = find_largest(windows, &flags);
    proof {
        assert(flags@ =~= watchable_flags(windows@, of_owner@));
        if found is Some {
            let c = choose|k: int| is_largest(windows@, flags@, k);
            assert(is_largest(windows@, flags@, c));
        }
    }
    found
}

/// The most prominent window of `owner` and its title.
pub fn find_primary_window(windows: &Vec<WindowInfo>, owner: &str) -> (found: Option<(u32, String)>)
    ensures
        match found {
            Some((id, title)) => {
                let at = primary(windows@, owned_flags(windows@, owner@));
                &&& at is Some
                &&& id == number_or_zero(windows@[at->0])
                &&& id != 0
                &&& title@ == title_shown(windows@[at->0])
            },
            None => primary(windows@, owned_flags(windows@, owner@)) is None,
        },
{
    let flags: Vec<bool> = owned_by(windows, owner);
    match primary_of(windows, &flags) {
        Some(i) => Some((windows[i].id(), windows[i].shown_title())),
        None => None,
    }
}

/// Whether there is a window with this number.
pub fn window_exists(windows: &Vec<WindowInfo>, window_id: u32) -> (present: bool)
    ensures
        present == exists|i: int|
            0 <= i < windows@.len() && (#[trigger] windows@[i]).number == Some(window_id),
{
    let mut i: usize = 0;
    while i < windows.len()
        invariant
            i <= windows@.len(),
            forall|k: int| 0 <= k < i ==> (#[trigger] windows@[k]).number != Some(window_id),
        decreases windows@.len() - i,
    {
        let same: bool = match windows[i].number {
            Some(n) => n == window_id,
            None => false,
        };
        if same {
            return true;
        }
        i = i + 1;
    }
    false
}

/// Which of the windows have this number.
pub open spec fn numbered_flags(windows: Seq<WindowInfo>, window_id: u32) -> Seq<bool> {
    windows.map_values(|w: WindowInfo| w.number == Some(window_id))
}

/// Whether the window with this number shows another view than a meeting; none
/// where there is no such window or it has no title.
pub open spec fn shows_chrome(windows: Seq<WindowInfo>, window_id: u32) -> Option<bool> {
    match first_set(numbered_flags(windows, window_id)) {
        Some(i) => if named(windows[i]) {
            Some(windows[i].chrome)
        } else {
            None
        },
        None => None,
    }
}

/// Whether the window with this number shows another view than a meeting; none
/// where there is no such window or it has no title.
pub fn title_is_chrome(windows: &Vec<WindowInfo>, window_id: u32) -> (chrome: Option<bool>)
    ensures
        chrome == shows_chrome(windows@, window_id),
{
    let ghost flags = numbered_flags(windows@, window_id);
    proof {
        law_first_set(flags);
    }
    let mut i: usize = 0;
    while i < windows.len()
        invariant
            i <= windows@.len(),
            flags == numbered_flags(windows@, window_id),
            forall|k: int| 0 <= k < i ==> !#[trigger] flags[k],
            forall|k: int| is_first(flags, k) ==> first_set(flags) == Some(k),
            first_set(flags) is None <==> (forall|k: int|
                0 <= k < flags.len() ==> !#[trigger] flags[k]),
        decreases windows@.len() - i,
    {
        let same: bool = match windows[i].number {
            Some(n) => n == window_id,
            None => false,
        };
        proof {
            assert(flags[i as int] == same);
        }
        if same {
            proof {
                assert(is_first(flags, i as int));
            }
            let has_name: bool = match &windows[i].name {
                Some(name) => !name.as_str().is_empty(),
                None => false,
            };
            return if has_name {
                Some(windows[i].chrome)
            } else {
                None
            };
        }
        i = i + 1;
    }
    None
}

/// The window belongs to one of the processes that use the microphone, and has a
/// title.
pub open spec fn audible(w: WindowInfo, of_owner: bool, audio_pids: Seq<u32>) -> bool {
    normal_layer(w) && of_owner && w.owner_pid != 0 && audio_pids.contains(w.owner_pid) && named(w)
}

/// Which of the windows belong to a process that uses the microphone.
pub open spec fn audible_flags(
    windows: Seq<WindowInfo>,
    of_owner: Seq<bool>,
    audio_pids: Seq<u32>,
) -> Seq<bool> {
    Seq::new(windows.len(), |i: int| audible(windows[i], of_owner[i], audio_pids))
}

/// The title of the first window that belongs to a process that uses the
/// microphone, given which windows are of the right owner.
pub open spec fn audible_title(
    windows: Seq<WindowInfo>,
    of_owner: Seq<bool>,
    audio_pids: Seq<u32>,
) -> Option<Seq<char>> {
    match first_set(audible_flags(windows, of_owner, audio_pids)) {
        Some(i) => crate::text::opt_string(windows[i].name),
        None => None,
    }
}

/// Whether a number is in a list.
fn listed(list: &Vec<u32>, n: u32) -> (found: bool)
    ensures
        found == list@.contains(n),
{
    let mut i: usize = 0;
    while i < list.len()
        invariant
            i <= list@.len(),
            forall|k: int| 0 <= k < i ==> #[trigger] list@[k] != n,
        decreases list@.len() - i,
    {
        if list[i] == n {
            return true;
        }
        i = i + 1;
    }
    false
}

/// The title of the first window that belongs to a process that uses the
/// microphone, given which windows are of the right owner.
pub fn audible_title_of(
    windows: &Vec<WindowInfo>,
    of_owner: &Vec<bool>,
    audio_pids: &Vec<u32>,
) -> (title: Option<String>)
    requires
        windows@.len() == of_owner@.len(),
    ensures
        crate::text::opt_string(title) == audible_title(windows@, of_owner@, audio_pids@),
{
    let mut flags: Vec<bool> = Vec::new();
    let mut i: usize = 0;
    while i < windows.len()
        invariant
            i <= windows@.len(),
            windows@.len() == of_owner@.len(),
            flags@.len() == i,
            forall|k: int|
                0 <= k < i ==> #[trigger] flags@[k] == audible(
                    windows@[k],
                    of_owner@[k],
                    audio_pids@,
                ),
        decreases windows@.len() - i,
    {
        let has_name: bool = match &windows[i].name {
            Some(name) => !name.as_str().is_empty(),
            None => false,
        };
        flags.push(
            windows[i].is_normal_layer() && of_owner[i] && windows[i].owner_pid != 0 && listed(
                audio_pids,
                windows[i].owner_pid,
            ) && has_name,
        );
        i = i + 1;
    }
    proof {
        assert(flags@ =~= audible_flags(windows@, of_owner@, audio_pids@));
    }
    match find_first(&flags) {
        Some(at) => {
            proof {
                let c = choose|k: int| is_first(flags@, k);
                assert(is_first(flags@, c));
            }
            match &windows[at].name {
                Some(name) => Some(name.clone()),
                None => None,
            }
        },
        None => None,
    }
}

/// The title of the first window of `owner` that belongs to a process that uses the
/// microphone.
pub fn window_title_for_audio_input_pid(
    windows: &Vec<WindowInfo>,
    owner: &str,
    audio_pids: &Vec<u32>,
) -> (title: Option<String>)
    ensures
        crate::text::opt_string(title) == audible_title(
            windows@,
            owned_flags(windows@, owner@),
            audio_pids@,
        ),
{
    let flags: Vec<bool> = owned_by(windows, owner);
    audible_title_of(windows, &flags, audio_pids)
}

/// What the titles of windows that are not of a meeting begin with.
pub const OTHER_TITLES: [&'static str; 10] = [
    "Calendar",
    "Chat",
    "Activity",
    "Calls",
    "OneDrive",
    "Teams NRC",
    "Microsoft Teams\0",
    "Viva",
    "Engage",
    "Copilot",
];

/// The title is that of a meeting.
pub open spec fn meeting_title(title: Seq<char>) -> bool {
    &&& title.len() > 0
    &&& title != "Microsoft Teams"@
    &&& forall|i: int|
        0 <= i < OTHER_TITLES@.len() ==> !crate::text::begins_with(
            title,
            #[trigger] OTHER_TITLES@[i]@,
        )
}

/// Whether a title is that of a meeting.
pub fn is_meeting_title(title: &str) -> (meeting: bool)
    ensures
        meeting == meeting_title(title@),
{
    if title.is_empty() || same_text(title, "Microsoft Teams") {
        return false;
    }
    let mut i: usize = 0;
    while i < 10
        invariant
            i <= 10,
            forall|k: int|
                0 <= k < i ==> !crate::text::begins_with(title@, #[trigger] OTHER_TITLES@[k]@),
        decreases 10 - i,
    {
        if starts_with(title, OTHER_TITLES[i]) {
            return false;
        }
        i = i + 1;
    }
    true
}

/// The window is worth a try at capturing it: a normal window of the right owner,
/// with a number, and large enough to hold participants.
pub open spec fn capture_candidate(w: WindowInfo, of_owner: bool) -> bool {
    normal_layer(w) && of_owner && number_or_zero(w) != 0 && w.has_bounds && w.width >= MIN_SIDE_KEY
        && w.height >= MIN_SIDE_KEY
}

/// Which windows are worth a try at capturing them, given which are of the right
/// owner.
pub fn candidates_of(windows: &Vec<WindowInfo>, of_owner: &Vec<bool>) -> (flags: Vec<bool>)
    requires
        windows@.len() == of_owner@.len(),
    ensures
        flags@ == Seq::new(
            windows@.len(),
            |i: int| capture_candidate(windows@[i], of_owner@[i]),
        ),
{
    let mut flags: Vec<bool> = Vec::new();
    let mut i: usize = 0;
    while i < windows.len()
        invariant
            i <= windows@.len(),
            windows@.len() == of_owner@.len(),
            flags@.len() == i,
            forall|k: int|
                0 <= k < i ==> #[trigger] flags@[k] == capture_candidate(
                    windows@[k],
                    of_owner@[k],
                ),
        decreases windows@.len() - i,
    {
        let w: &WindowInfo = &windows[i];
        flags.push(
            w.is_normal_layer() && of_owner[i] && w.id() != 0 && w.has_bounds && w.width
                >= MIN_SIDE_KEY && w.height >= MIN_SIDE_KEY,
        );
        i = i + 1;
    }
    proof {
        assert(flags@ =~= Seq::new(
            windows@.len(),
            |k: int| capture_candidate(windows@[k], of_owner@[k]),
        ));
    }
    flags
}

/// Which windows of `owner` are worth a try at capturing them.
pub fn capture_candidates(windows: &Vec<WindowInfo>, owner: &str) -> (flags: Vec<bool>)
    ensures
        flags@ == Seq::new(
            windows@.len(),
            |i: int| capture_candidate(windows@[i], owned(windows@[i], owner@)),
        ),
{
    let of_owner: Vec<bool> = owned_by(windows, owner);
    let flags: Vec<bool> = candidates_of(windows, &of_owner);
    proof {
        assert(flags@ =~= Seq::new(
            windows@.len(),
            |i: int| capture_candidate(windows@[i], owned(windows@[i], owner@)),
        ));
    }
    flags
}

/// Which of the windows that could be captured have the title of a meeting.
pub open spec fn meeting_flags(windows: Seq<WindowInfo>, captured: Seq<bool>) -> Seq<bool> {
    Seq::new(
        windows.len(),
        |i: int|
            captured[i] && meeting_title(
                crate::text::text_or_empty(crate::text::opt_string(windows[i].name)),
            ),
    )
}

/// The meeting window among those that could be captured: the first with the title
/// of a meeting, else the largest.
pub open spec fn meeting_window(windows: Seq<WindowInfo>, captured: Seq<bool>) -> Option<int> {
    match first_set(meeting_flags(windows, captured)) {
        Some(i) => Some(i),
        None => largest(windows, captured),
    }
}

/// The position of the meeting window, given which windows could be captured.
pub fn find_meeting_window(windows: &Vec<WindowInfo>, captured: &Vec<bool>) -> (found: Option<usize>)
    requires
        windows@.len() == captured@.len(),
    ensures
        position(found) == meeting_window(windows@, captured@),
        found matches Some(i) ==> i < windows@.len() && captured@[i as int],
{
    let mut flags: Vec<bool> = Vec::new();
    let mut i: usize = 0;
    while i < windows.len()
        invariant
            i <= windows@.len(),
            windows@.len() == captured@.len(),
            flags@.len() == i,
            forall|k: int|
                0 <= k < i ==> #[trigger] flags@[k] == (captured@[k] && meeting_title(
                    crate::text::text_or_empty(crate::text::opt_string(windows@[k].name)),
                )),
        decreases windows@.len() - i,
    {
        let meeting: bool = match &windows[i].name {
            Some(name) => is_meeting_title(name.as_str()),
            None => false,
        };
        flags.push(captured[i] && meeting);
        i = i + 1;
    }
    proof {
        assert(flags@ =~= meeting_flags(windows@, captured@));
        law_first_set(flags@);
    }
    match find_first(&flags) {
        Some(at) => {
            proof {
                let c = choose|k: int| is_first(flags@, k);
                assert(is_first(flags@, c));
            }
            Some(at)
        },
        None => {
            let at: Option<usize> = find_largest(windows, captured);
            proof {
                if at is Some {
                    let c = choose|k: int| is_largest(windows@, captured@, k);
                    assert(is_largest(windows@, captured@, c));
                }
            }
            at
        },
    }
}

/// Where a window that could be captured has the title of a meeting, the meeting
/// window has one; otherwise it is the largest that could be captured.
pub proof fn law_meeting_title_comes_first(windows: Seq<WindowInfo>, captured: Seq<bool>, i: int)
    requires
        windows.len() == captured.len(),
        0 <= i < windows.len(),
        meeting_flags(windows, captured)[i],
    ensures
        meeting_window(windows, captured) matches Some(at) && 0 <= at <= i && meeting_flags(
            windows,
            captured,
        )[at],
{
    let flags = meeting_flags(windows, captured);
    law_first_set(flags);
    let c = choose|k: int| is_first(flags, k);
    assert(is_first(flags, c));
    if i < c {
        assert(!flags[i]);
    }
}

/// A window belongs to an owner exactly where the name of the window's owner has the
/// owner's in it, both in lowercase; a window that does not tell whose it is has the empty
/// name.
pub proof fn law_owner_is_in_the_name(windows: Seq<WindowInfo>, owner: Seq<char>, i: int)
    requires
        0 <= i < windows.len(),
    ensures
        owned_flags(windows, owner).len() == windows.len(),
        windows[i].owner_name matches Some(name) ==> owned_flags(windows, owner)[i]
            == crate::text::has_text(crate::text::lowercase(name@), crate::text::lowercase(owner)),
        windows[i].owner_name is None ==> owned_flags(windows, owner)[i] == crate::text::has_text(
            Seq::empty(),
            crate::text::lowercase(owner),
        ),
{
    assert(crate::text::lowercase(Seq::empty()) =~= Seq::empty());
}

/// The most prominent window is a normal window of the owner, with a number other than 0
/// and of at least 10 000 square points; among those none is larger, and none that comes
/// before it is as large. There is one wherever there is such a window.
pub proof fn law_most_prominent_window(windows: Seq<WindowInfo>, of_owner: Seq<bool>, j: int)
    requires
        windows.len() == of_owner.len(),
        0 <= j < windows.len(),
    ensures
        primary(windows, of_owner) matches Some(i) ==> {
            let w = windows[i];
            &&& 0 <= i < windows.len()
            &&& w.layer is None || w.layer == Some(0i32)
            &&& of_owner[i]
            &&& w.area >= 0x40C3_8800_0000_0000
            &&& w.number matches Some(n) && n != 0
        },
        ({
            let w = windows[j];
            (w.layer is None || w.layer == Some(0i32)) && of_owner[j] && w.area
                >= 0x40C3_8800_0000_0000 && w.number is Some && w.number != Some(0u32) ==> {
                let found = primary(windows, of_owner);
                let i = found->0;
                found is Some && w.area <= windows[i].area && (j < i ==> w.area < windows[i].area)
            }
        }),
{
    let flags = watchable_flags(windows, of_owner);
    law_largest(windows, flags);
    if primary(windows, of_owner) is Some {
        let c = choose|k: int| is_largest(windows, flags, k);
        assert(is_largest(windows, flags, c));
        assert(flags[c]);
    }
    assert(flags[j] == watchable(windows[j], of_owner[j]));
}

/// The title of a window is its name, and a text in its place where it has none or an
/// empty one.
pub proof fn law_shown_title(w: WindowInfo)
    ensures
        w.name matches Some(name) && name@.len() > 0 ==> title_shown(w) == w.name->0@,
        w.name is None ==> title_shown(w) == "(active window)"@,
        w.name matches Some(name) && name@.len() == 0 ==> title_shown(w) == "(active window)"@,
{
}

/// Whether a window shows another view is told by the first window with its number, if
/// that has a name that is not empty.
pub proof fn law_view_of_numbered_window(windows: Seq<WindowInfo>, id: u32, i: int)
    requires
        0 <= i < windows.len(),
        windows[i].number == Some(id),
        forall|j: int| 0 <= j < i ==> (#[trigger] windows[j]).number != Some(id),
    ensures
        windows[i].name matches Some(name) && name@.len() > 0 ==> shows_chrome(windows, id) == Some(
            windows[i].chrome,
        ),
        windows[i].name is None ==> shows_chrome(windows, id) is None,
        windows[i].name matches Some(name) && name@.len() == 0 ==> shows_chrome(windows, id)
            is None,
{
    let flags = numbered_flags(windows, id);
    law_first_set(flags);
    assert forall|j: int| 0 <= j < i implies !#[trigger] flags[j] by {
        assert(windows[j].number != Some(id));
    }
    assert(is_first(flags, i));
}

/// Where no window has the number nothing is told of it.
pub proof fn law_no_view_without_window(windows: Seq<WindowInfo>, id: u32)
    requires
        forall|j: int| 0 <= j < windows.len() ==> (#[trigger] windows[j]).number != Some(id),
    ensures
        shows_chrome(windows, id) is None,
{
    let flags = numbered_flags(windows, id);
    law_first_set(flags);
    assert forall|j: int| 0 <= j < flags.len() implies !#[trigger] flags[j] by {
        assert(windows[j].number != Some(id));
    }
}

/// The title that tells of a browser's meeting is that of the first normal window of the
/// owner that has a title and belongs to a process that uses the microphone; there is none
/// where there is no such window.
pub proof fn law_title_of_the_window_with_audio(
    windows: Seq<WindowInfo>,
    of_owner: Seq<bool>,
    audio_pids: Seq<u32>,
    i: int,
)
    requires
        windows.len() == of_owner.len(),
        0 <= i <= windows.len(),
        forall|j: int|
            0 <= j < i ==> {
                let w = #[trigger] windows[j];
                ||| w.layer is Some && w.layer != Some(0i32)
                ||| !of_owner[j]
                ||| w.owner_pid == 0
                ||| !audio_pids.contains(w.owner_pid)
                ||| w.name is None
                ||| w.name->0@.len() == 0
            },
    ensures
        i < windows.len() ==> {
            let w = windows[i];
            (w.layer is None || w.layer == Some(0i32)) && of_owner[i] && w.owner_pid != 0
                && audio_pids.contains(w.owner_pid) && w.name is Some && w.name->0@.len() > 0
                ==> audible_title(windows, of_owner, audio_pids) == Some(w.name->0@)
        },
        i == windows.len() ==> audible_title(windows, of_owner, audio_pids) is None,
{
    let flags = audible_flags(windows, of_owner, audio_pids);
    law_first_set(flags);
    assert forall|j: int| 0 <= j < i implies !#[trigger] flags[j] by {
        let w = windows[j];
        assert(flags[j] == audible(w, of_owner[j], audio_pids));
    }
    if i < windows.len() && flags[i] {
        assert(is_first(flags, i));
    }
}

/// A title is no meeting's where it is empty, where it is the bare name of Teams, or where
/// it begins as the title of another view does; every other title is one.
pub proof fn law_titles_of_other_views(title: Seq<char>)
    ensures
        meeting_title(title) <==> {
            &&& title.len() > 0
            &&& title != "Microsoft Teams"@
            &&& !crate::text::begins_with(title, "Calendar"@)
            &&& !crate::text::begins_with(title, "Chat"@)
            &&& !crate::text::begins_with(title, "Activity"@)
            &&& !crate::text::begins_with(title, "Calls"@)
            &&& !crate::text::begins_with(title, "OneDrive"@)
            &&& !crate::text::begins_with(title, "Teams NRC"@)
            &&& !crate::text::begins_with(title, "Microsoft Teams\0"@)
            &&& !crate::text::begins_with(title, "Viva"@)
            &&& !crate::text::begins_with(title, "Engage"@)
            &&& !crate::text::begins_with(title, "Copilot"@)
        },
{
    assert(OTHER_TITLES@[0]@ == "Calendar"@);
    assert(OTHER_TITLES@[1]@ == "Chat"@);
    assert(OTHER_TITLES@[2]@ == "Activity"@);
    assert(OTHER_TITLES@[3]@ == "Calls"@);
    assert(OTHER_TITLES@[4]@ == "OneDrive"@);
    assert(OTHER_TITLES@[5]@ == "Teams NRC"@);
    assert(OTHER_TITLES@[6]@ == "Microsoft Teams\0"@);
    assert(OTHER_TITLES@[7]@ == "Viva"@);
    assert(OTHER_TITLES@[8]@ == "Engage"@);
    assert(OTHER_TITLES@[9]@ == "Copilot"@);
}

/// A window is worth a try at capturing it exactly where it is a normal window of the
/// owner with a number other than 0 and with bounds, and at least 200 points wide and
/// high.
pub proof fn law_capture_candidates(w: WindowInfo, of_owner: bool)
    ensures
        capture_candidate(w, of_owner) <==> (w.layer is None || w.layer == Some(0i32)) && of_owner
            && w.number is Some && w.number != Some(0u32) && w.has_bounds && w.width
            >= 0x4069_0000_0000_0000 && w.height >= 0x4069_0000_0000_0000,
{
}

/// The meeting window is one that could be captured. Where one of those has the title of
/// a meeting it is the first such, and otherwise none is larger and none before it as
/// large; there is one wherever a window could be captured.
pub proof fn law_meeting_window(windows: Seq<WindowInfo>, captured: Seq<bool>, j: int)
    requires
        windows.len() == captured.len(),
        0 <= j < windows.len(),
        captured[j],
    ensures
        meeting_window(windows, captured) matches Some(i) && 0 <= i < windows.len() && captured[i],
        ({
            let i = meeting_window(windows, captured)->0;
            let titled = |k: int|
                captured[k] && windows[k].name is Some && meeting_title(windows[k].name->0@);
            &&& titled(j) ==> i <= j && titled(i)
            &&& !titled(i) ==> windows[j].area <= windows[i].area && (j < i ==> windows[j].area
                < windows[i].area)
        }),
{
    let flags = meeting_flags(windows, captured);
    law_first_set(flags);
    law_largest(windows, captured);
    assert(flags[j] == (captured[j] && meeting_title(
        crate::text::text_or_empty(crate::text::opt_string(windows[j].name)),
    )));
    if first_set(flags) is Some {
        let c = choose|k: int| is_first(flags, k);
        assert(is_first(flags, c));
        if j < c {
            assert(!flags[j]);
        }
    } else {
        let c = choose|k: int| is_largest(windows, captured, k);
        assert(is_largest(windows, captured, c));
        assert(!flags[j]);
        assert(!flags[c]);
    }
}

} // verus!
