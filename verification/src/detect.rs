//! Which process is in a meeting: choosing among the processes that the audio
//! system knows.
use vstd::prelude::*;

use crate::apps::{
    bundle_to_owner_name, cg_window_owner, identify_by_bundle, identify_by_proc_name,
    identify_by_window_title, is_browser_bundle, is_meeting_bundle,
};
use crate::window::{owned_by, primary_of, window_title_for_audio_input_pid, WindowInfo};

verus! {

/// What the audio system tells of a process.
#[derive(Debug, Clone, PartialEq, Eq)]
pub struct AudioProcess {
    /// The bundle id, where the process has one.
    pub bundle: Option<String>,
    /// The process is using the microphone.
    pub running_input: bool,
    pub pid: u32,
    /// The name of the process; empty where it is not known.
    pub name: String,
}

/// The processes that use the microphone, in order.
pub open spec fn active_pids(processes: Seq<AudioProcess>) -> Seq<u32>
    decreases processes.len(),
{
    if processes.len() == 0 {
        Seq::empty()
    } else {
        let before = active_pids(processes.drop_last());
        if processes.last().running_input {
            before.push(processes.last().pid)
        } else {
            before
        }
    }
}

/// The processes that use the microphone, in order.
pub fn active_input_pids(processes: &Vec<AudioProcess>) -> (pids: Vec<u32>)
    ensures
        pids@ == active_pids(processes@),
{
    let mut pids: Vec<u32> = Vec::new();
    let mut i: usize = 0;
    while i < processes.len()
        invariant
            i <= processes@.len(),
            pids@ == active_pids(processes@.take(i as int)),
        decreases processes@.len() - i,
    {
        if processes[i].running_input {
            pids.push(processes[i].pid);
        }
        proof {
            assert(processes@.take(i + 1).drop_last() =~= processes@.take(i as int));
        }
        i = i + 1;
    }
    proof {
        assert(processes@.take(processes@.len() as int) =~= processes@);
    }
    pids
}

/// The name of a native application: what is known by its bundle id, else what is
/// known by its process name, else the bundle id itself.
pub open spec fn native_name(
    by_bundle: Option<Seq<char>>,
    by_process: Option<Seq<char>>,
    bundle: Seq<char>,
) -> Seq<char> {
    match by_bundle {
        Some(app) => app,
        None => match by_process {
            Some(app) => app,
            None => bundle,
        },
    }
}

/// The name of a native application, from what is known by its bundle id and by its
/// process name.
pub fn native_app(
    by_bundle: Option<&'static str>,
    by_process: Option<&'static str>,
    bundle: &str,
) -> (app: String)
    ensures
        app@ == native_name(
            crate::text::opt_text(by_bundle),
            crate::text::opt_text(by_process),
            bundle@,
        ),
{
    match by_bundle {
        Some(app) => app.to_owned(),
        None => match by_process {
            Some(app) => app.to_owned(),
            None => bundle.to_owned(),
        },
    }
}

/// The meeting that a browser is in: its window title tells.
pub open spec fn browser_meeting(
    bundle: Seq<char>,
    windows: Seq<WindowInfo>,
    audio_pids: Seq<u32>,
) -> Option<Seq<char>> {
    let owner = crate::apps::bundle_owner(bundle);
    match crate::window::audible_title(
        windows,
        crate::window::owned_flags(windows, owner),
        audio_pids,
    ) {
        Some(title) => crate::apps::title_app(title),
        None => None,
    }
}

/// The most prominent window of the application shows a screen before a meeting is
/// joined.
pub open spec fn before_joining(app: Seq<char>, on_screen: Seq<WindowInfo>) -> bool {
    let owner = crate::apps::window_owner(app);
    crate::window::primary(on_screen, crate::window::owned_flags(on_screen, owner)) matches Some(i)
        && on_screen[i].prejoin
}

/// The meeting application that a process with this bundle id and name is in a
/// meeting with.
pub open spec fn bundle_meeting(
    bundle: Seq<char>,
    name: Seq<char>,
    windows: Seq<WindowInfo>,
    audio_pids: Seq<u32>,
    on_screen: Seq<WindowInfo>,
) -> Option<Seq<char>> {
    if crate::apps::browser_bundle(crate::text::lowercase(bundle)) {
        browser_meeting(bundle, windows, audio_pids)
    } else {
        let app = native_name(
            crate::apps::bundle_app(crate::text::lowercase(bundle)),
            crate::apps::proc_app(crate::text::lowercase(name)),
            bundle,
        );
        if before_joining(app, on_screen) {
            None
        } else {
            Some(app)
        }
    }
}

/// The meeting application that a process is in a meeting with: it has a known
/// bundle id and uses the microphone, a browser shows a meeting, and a native
/// application is past the screen before a meeting is joined.
pub open spec fn process_meeting(
    p: AudioProcess,
    windows: Seq<WindowInfo>,
    audio_pids: Seq<u32>,
    on_screen: Seq<WindowInfo>,
) -> Option<Seq<char>> {
    match p.bundle {
        Some(bundle) => if crate::apps::meeting_bundle(bundle@) && p.running_input {
            bundle_meeting(bundle@, p.name@, windows, audio_pids, on_screen)
        } else {
            None
        },
        None => None,
    }
}

/// The meeting application that a process is in a meeting with, if it is in one.
///
/// `windows` are all windows, `on_screen` those on the screen.
pub fn meeting_of(
    p: &AudioProcess,
    windows: &Vec<WindowInfo>,
    audio_pids: &Vec<u32>,
    on_screen: &Vec<WindowInfo>,
) -> (app: Option<String>)
    ensures
        crate::text::opt_string(app) == process_meeting(*p, windows@, audio_pids@, on_screen@),
{
    let bundle: &String = match &p.bundle {
        Some(bundle) => bundle,
        None => {
            return None;
        },
    };
    if !is_meeting_bundle(bundle.as_str()) || !p.running_input {
        return None;
    }
    if is_browser_bundle(bundle.as_str()) {
        let owner: String = bundle_to_owner_name(bundle.as_str());
        let title: Option<String> = window_title_for_audio_input_pid(
            windows,
            owner.as_str(),
            audio_pids,
        );
        return match title {
            Some(title) => match identify_by_window_title(title.as_str()) {
                Some(app) => Some(app.to_owned()),
                None => None,
            },
            None => None,
        };
    }
    let app: String = native_app(
        identify_by_bundle(bundle.as_str()),
        identify_by_proc_name(p.name.as_str()),
        bundle.as_str(),
    );
    let owner: String = cg_window_owner(app.as_str());
    let of_owner: Vec<bool> = owned_by(on_screen, owner.as_str());
    match primary_of(on_screen, &of_owner) {
        Some(i) => {
            if on_screen[i].prejoin {
                return None;
            }
        },
        None => {},
    }
    Some(app)
}

/// The first process that is in a meeting, given for each process the application
/// that it is in a meeting with.
pub open spec fn first_in_meeting(apps: Seq<Option<Seq<char>>>) -> Option<int> {
    crate::window::first_set(apps.map_values(|app: Option<Seq<char>>| app is Some))
}

/// What a poll finds: the first process that is in a meeting and its application;
/// 0 and the empty text where there is none.
pub open spec fn found(processes: Seq<AudioProcess>, apps: Seq<Option<Seq<char>>>) -> (
    u32,
    Seq<char>,
) {
    match first_in_meeting(apps) {
        Some(i) => (processes[i].pid, apps[i]->0),
        None => (0, Seq::empty()),
    }
}

/// The applications that processes are in a meeting with.
pub open spec fn meetings(
    processes: Seq<AudioProcess>,
    windows: Seq<WindowInfo>,
    on_screen: Seq<WindowInfo>,
) -> Seq<Option<Seq<char>>> {
    let audio_pids = active_pids(processes);
    processes.map_values(
        |p: AudioProcess| process_meeting(p, windows, audio_pids, on_screen),
    )
}

/// The first process that is in a meeting and its application; 0 and the empty
/// text where there is none.
///
/// `windows` are all windows, `on_screen` those on the screen.
pub fn poll_active(
    processes: &Vec<AudioProcess>,
    windows: &Vec<WindowInfo>,
    on_screen: &Vec<WindowInfo>,
) -> (active: (u32, String))
    ensures
        (active.0, active.1@) == found(
            processes@,
            meetings(processes@, windows@, on_screen@),
        ),
{
    let audio_pids: Vec<u32> = active_input_pids(processes);
    let ghost apps = meetings(processes@, windows@, on_screen@);
    let ghost flags = apps.map_values(|app: Option<Seq<char>>| app is Some);
    proof {
        crate::window::law_first_set(flags);
    }
    let mut i: usize = 0;
    while i < processes.len()
        invariant
            i <= processes@.len(),
            audio_pids@ == active_pids(processes@),
            apps == meetings(processes@, windows@, on_screen@),
            flags == apps.map_values(|app: Option<Seq<char>>| app is Some),
            forall|k: int| 0 <= k < i ==> !#[trigger] flags[k],
            forall|k: int|
                crate::window::is_first(flags, k) ==> crate::window::first_set(flags) == Some(k),
            crate::window::first_set(flags) is None <==> (forall|k: int|
                0 <= k < flags.len() ==> !#[trigger] flags[k]),
        decreases processes@.len() - i,
    {
        match meeting_of(&processes[i], windows, &audio_pids, on_screen) {
            Some(app) => {
                proof {
                    assert(apps[i as int] == Some(app@));
                    assert(crate::window::is_first(flags, i as int));
                }
                return (processes[i].pid, app);
            },
            None => {
                proof {
                    assert(apps[i as int] is None);
                    assert(!flags[i as int]);
                }
            },
        }
        i = i + 1;
    }
    (0, String::new())
}

/// A meeting is found only of a process that has the bundle id of a meeting
/// application and uses the microphone, and no process before it is in one.
pub proof fn law_found_process_is_active(
    processes: Seq<AudioProcess>,
    windows: Seq<WindowInfo>,
    on_screen: Seq<WindowInfo>,
)
    ensures
        ({
            let apps = meetings(processes, windows, on_screen);
            match first_in_meeting(apps) {
                Some(i) => {
                    &&& 0 <= i < processes.len()
                    &&& processes[i].running_input
                    &&& processes[i].bundle matches Some(bundle)
                        && crate::apps::meeting_bundle(bundle@)
                    &&& forall|j: int| 0 <= j < i ==> #[trigger] apps[j] is None
                },
                None => forall|j: int| 0 <= j < processes.len() ==> #[trigger] apps[j] is None,
            }
        }),
{
    let apps = meetings(processes, windows, on_screen);
    let flags = apps.map_values(|app: Option<Seq<char>>| app is Some);
    crate::window::law_first_set(flags);
    match first_in_meeting(apps) {
        Some(i) => {
            let c = choose|k: int| crate::window::is_first(flags, k);
            assert(crate::window::is_first(flags, c));
            assert(apps[i] == process_meeting(
                processes[i],
                windows,
                active_pids(processes),
                on_screen,
            ));
            assert forall|j: int| 0 <= j < i implies #[trigger] apps[j] is None by {
                assert(!flags[j]);
            }
        },
        None => {
            assert forall|j: int| 0 <= j < processes.len() implies #[trigger] apps[j] is None by {
                assert(!flags[j]);
            }
        },
    }
}

/// A process that has no bundle id, or not that of a meeting application, or that does not
/// use the microphone is in no meeting, whatever windows there are.
pub proof fn law_meeting_needs_microphone_and_application(
    p: AudioProcess,
    windows: Seq<WindowInfo>,
    audio_pids: Seq<u32>,
    on_screen: Seq<WindowInfo>,
)
    ensures
        process_meeting(p, windows, audio_pids, on_screen) is Some ==> {
            &&& p.running_input
            &&& p.bundle is Some
            &&& crate::apps::meeting_bundle(p.bundle->0@)
        },
{
}

/// No window before position `i` is a normal one with a title whose owner's name has
/// `owner` in it, in lowercase, and that belongs to one of the processes.
pub open spec fn none_audible_before(
    windows: Seq<WindowInfo>,
    owner: Seq<char>,
    audio_pids: Seq<u32>,
    i: int,
) -> bool {
    forall|j: int|
        0 <= j < i ==> {
            let w = #[trigger] windows[j];
            ||| w.layer is Some && w.layer != Some(0i32)
            ||| w.owner_name is Some && !crate::text::has_text(
                crate::text::lowercase(w.owner_name->0@),
                crate::text::lowercase(owner),
            )
            ||| w.owner_name is None && !crate::text::has_text(
                Seq::empty(),
                crate::text::lowercase(owner),
            )
            ||| w.owner_pid == 0
            ||| !audio_pids.contains(w.owner_pid)
            ||| w.name is None
            ||| w.name->0@.len() == 0
        }
}

/// The title of the first such window decides.
proof fn lemma_browser_title(
    windows: Seq<WindowInfo>,
    owner: Seq<char>,
    audio_pids: Seq<u32>,
    i: int,
)
    requires
        0 <= i <= windows.len(),
        none_audible_before(windows, owner, audio_pids, i),
    ensures
        ({
            let flags = crate::window::owned_flags(windows, owner);
            let title = crate::window::audible_title(windows, flags, audio_pids);
            &&& i == windows.len() ==> title is None
            &&& i < windows.len() && (windows[i].layer is None || windows[i].layer == Some(0i32))
                && windows[i].owner_name is Some && crate::text::has_text(
                crate::text::lowercase(windows[i].owner_name->0@),
                crate::text::lowercase(owner),
            ) && windows[i].owner_pid != 0 && audio_pids.contains(windows[i].owner_pid)
                && windows[i].name is Some && windows[i].name->0@.len() > 0 ==> title == Some(
                windows[i].name->0@,
            )
        }),
{
    let flags = crate::window::owned_flags(windows, owner);
    assert forall|j: int| 0 <= j < i implies ({
        let w = #[trigger] windows[j];
        ||| w.layer is Some && w.layer != Some(0i32)
        ||| !flags[j]
        ||| w.owner_pid == 0
        ||| !audio_pids.contains(w.owner_pid)
        ||| w.name is None
        ||| w.name->0@.len() == 0
    }) by {
        crate::window::law_owner_is_in_the_name(windows, owner, j);
    }
    if i < windows.len() {
        crate::window::law_owner_is_in_the_name(windows, owner, i);
    }
    crate::window::law_title_of_the_window_with_audio(windows, flags, audio_pids, i);
}

/// A browser with the bundle id of Chrome, Safari, Firefox or Edge that uses the
/// microphone is in a Google Meet meeting where the first of its own windows that counts,
/// a normal one with a title that belongs to a process that uses the microphone, has the
/// name or the address of Google Meet in its title.
pub proof fn law_meeting_in_a_browser(
    p: AudioProcess,
    windows: Seq<WindowInfo>,
    audio_pids: Seq<u32>,
    on_screen: Seq<WindowInfo>,
    owner: Seq<char>,
    i: int,
)
    requires
        p.running_input,
        p.bundle is Some,
        ({
            let b = p.bundle->0@;
            ||| b == "com.google.chrome"@ && owner == "Google Chrome"@
            ||| b == "com.apple.Safari"@ && owner == "Safari"@
            ||| b == "org.mozilla.firefox"@ && owner == "Firefox"@
            ||| b == "com.microsoft.edgemac"@ && owner == "Microsoft Edge"@
        }),
        0 <= i < windows.len(),
        none_audible_before(windows, owner, audio_pids, i),
        windows[i].layer is None || windows[i].layer == Some(0i32),
        windows[i].owner_name is Some,
        windows[i].owner_name->0@ == owner,
        windows[i].owner_pid != 0,
        audio_pids.contains(windows[i].owner_pid),
        windows[i].name is Some,
        windows[i].name->0@.len() > 0,
    ensures
        ({
            let title = windows[i].name->0@;
            let meeting = process_meeting(p, windows, audio_pids, on_screen);
            &&& crate::text::has_text(title, "Google Meet"@) ==> meeting == Some("Google Meet"@)
            &&& crate::text::has_text(title, "meet.google.com"@) ==> meeting == Some(
                "Google Meet"@,
            )
            &&& !crate::text::has_text(title, "Google Meet"@) && !crate::text::has_text(
                title,
                "meet.google.com"@,
            ) ==> meeting is None
        }),
{
    let b = p.bundle->0@;
    lemma_known_browser(b);
    crate::text::lemma_has_itself(crate::text::lowercase(owner));
    crate::known_apps::law_known_browsers_own_their_windows();
    lemma_browser_title(windows, owner, audio_pids, i);
}

/// A browser none of whose windows counts is in no meeting.
pub proof fn law_browser_without_window_is_in_no_meeting(
    p: AudioProcess,
    windows: Seq<WindowInfo>,
    audio_pids: Seq<u32>,
    on_screen: Seq<WindowInfo>,
    owner: Seq<char>,
)
    requires
        p.bundle is Some,
        ({
            let b = p.bundle->0@;
            ||| b == "com.google.chrome"@ && owner == "Google Chrome"@
            ||| b == "com.apple.Safari"@ && owner == "Safari"@
            ||| b == "org.mozilla.firefox"@ && owner == "Firefox"@
            ||| b == "com.microsoft.edgemac"@ && owner == "Microsoft Edge"@
        }),
        none_audible_before(windows, owner, audio_pids, windows.len() as int),
    ensures
        process_meeting(p, windows, audio_pids, on_screen) is None,
{
    lemma_known_browser(p.bundle->0@);
    crate::known_apps::law_known_browsers_own_their_windows();
    lemma_browser_title(windows, owner, audio_pids, windows.len() as int);
}

/// The known browsers are known, and are browsers.
proof fn lemma_known_browser(b: Seq<char>)
    requires
        b == "com.google.chrome"@ || b == "com.apple.Safari"@ || b == "org.mozilla.firefox"@ || b
            == "com.microsoft.edgemac"@,
    ensures
        crate::apps::meeting_bundle(b),
        crate::apps::browser_bundle(crate::text::lowercase(b)),
{
    crate::text::lemma_has_itself(b);
    crate::apps::law_known_bundle_parts(b);
    crate::known_apps::lemma_browsers_are_browsers();
}

/// An application that runs by itself, has a known bundle id and uses the microphone is in
/// a meeting unless its most prominent window on the screen shows a screen before joining.
/// It goes by the name that its bundle id stands for, else by that of its process, else by
/// the bundle id.
pub proof fn law_meeting_in_an_application(
    p: AudioProcess,
    windows: Seq<WindowInfo>,
    audio_pids: Seq<u32>,
    on_screen: Seq<WindowInfo>,
)
    requires
        p.running_input,
        p.bundle is Some,
        crate::apps::meeting_bundle(p.bundle->0@),
        !crate::apps::browser_bundle(crate::text::lowercase(p.bundle->0@)),
    ensures
        ({
            let b = p.bundle->0@;
            let by_bundle = crate::apps::bundle_app(crate::text::lowercase(b));
            let by_process = crate::apps::proc_app(crate::text::lowercase(p.name@));
            let app = if by_bundle is Some {
                by_bundle->0
            } else if by_process is Some {
                by_process->0
            } else {
                b
            };
            let owner = crate::apps::window_owner(app);
            let front = crate::window::primary(
                on_screen,
                on_screen.map_values(|w: WindowInfo| crate::window::owned(w, owner)),
            );
            let meeting = process_meeting(p, windows, audio_pids, on_screen);
            &&& front is Some && on_screen[front->0].prejoin ==> meeting is None
            &&& front is None || !on_screen[front->0].prejoin ==> meeting == Some(app)
        }),
{
    let b = p.bundle->0@;
    let app = native_name(
        crate::apps::bundle_app(crate::text::lowercase(b)),
        crate::apps::proc_app(crate::text::lowercase(p.name@)),
        b,
    );
    let owner = crate::apps::window_owner(app);
    assert(crate::window::owned_flags(on_screen, owner) =~= on_screen.map_values(
        |w: WindowInfo| crate::window::owned(w, owner),
    ));
}

/// A poll finds the first process that is in a meeting, and its meeting; nothing where none
/// is.
pub proof fn law_poll_finds_the_first_meeting(
    processes: Seq<AudioProcess>,
    windows: Seq<WindowInfo>,
    on_screen: Seq<WindowInfo>,
    i: int,
)
    requires
        0 <= i <= processes.len(),
        forall|j: int|
            0 <= j < i ==> process_meeting(
                #[trigger] processes[j],
                windows,
                active_pids(processes),
                on_screen,
            ) is None,
    ensures
        ({
            let apps = meetings(processes, windows, on_screen);
            &&& i == processes.len() ==> found(processes, apps).0 == 0 && found(
                processes,
                apps,
            ).1.len() == 0
            &&& i < processes.len() ==> {
                let meeting = process_meeting(
                    processes[i],
                    windows,
                    active_pids(processes),
                    on_screen,
                );
                meeting is Some ==> found(processes, apps) == (processes[i].pid, meeting->0)
            }
        }),
{
    let apps = meetings(processes, windows, on_screen);
    let flags = apps.map_values(|app: Option<Seq<char>>| app is Some);
    crate::window::law_first_set(flags);
    assert forall|j: int| 0 <= j < i implies !#[trigger] flags[j] by {
        assert(apps[j] == process_meeting(
            processes[j],
            windows,
            active_pids(processes),
            on_screen,
        ));
    }
    if i < processes.len() && flags[i] {
        assert(crate::window::is_first(flags, i));
    }
}

/// The processes that use the microphone are told one after the other: those of one list
/// and then those of another are those of both, and of a single process it is what it does
/// that counts. So a process that uses it is among them.
pub proof fn law_active_processes_add_up(
    first: Seq<AudioProcess>,
    second: Seq<AudioProcess>,
    p: AudioProcess,
)
    ensures
        active_pids(first + second) == active_pids(first) + active_pids(second),
        p.running_input ==> active_pids(seq![p]) == seq![p.pid],
        !p.running_input ==> active_pids(seq![p]).len() == 0,
        p.running_input ==> active_pids(first.push(p)).contains(p.pid),
    decreases second.len(),
{
    assert(seq![p].drop_last() =~= Seq::<AudioProcess>::empty());
    assert(seq![p].last() == p);
    assert(active_pids(Seq::<AudioProcess>::empty()) =~= Seq::<u32>::empty());
    if p.running_input {
        assert(active_pids(seq![p]) =~= seq![p.pid]);
        assert(first.push(p).drop_last() =~= first);
        let all = active_pids(first.push(p));
        assert(all == active_pids(first).push(p.pid));
        assert(all[all.len() - 1] == p.pid);
    }
    if second.len() == 0 {
        assert(first + second =~= first);
        assert(active_pids(first) + active_pids(second) =~= active_pids(first));
    } else {
        law_active_processes_add_up(first, second.drop_last(), p);
        assert((first + second).drop_last() =~= first + second.drop_last());
        assert(active_pids(first + second) =~= active_pids(first) + active_pids(second));
    }
}

/// A process with any bundle id that a browser's stands in, such as that of a helper of
/// the browser, goes by the windows of that browser in the same way.
pub proof fn law_meeting_in_a_helper_of_a_browser(
    p: AudioProcess,
    windows: Seq<WindowInfo>,
    audio_pids: Seq<u32>,
    on_screen: Seq<WindowInfo>,
    i: int,
)
    requires
        p.running_input,
        p.bundle is Some,
        crate::apps::meeting_bundle(p.bundle->0@),
        crate::apps::browser_bundle(crate::text::lowercase(p.bundle->0@)),
        0 <= i <= windows.len(),
        none_audible_before(windows, crate::apps::bundle_owner(p.bundle->0@), audio_pids, i),
        i < windows.len() ==> {
            &&& windows[i].layer is None || windows[i].layer == Some(0i32)
            &&& windows[i].owner_name is Some
            &&& crate::text::has_text(
                crate::text::lowercase(windows[i].owner_name->0@),
                crate::text::lowercase(crate::apps::bundle_owner(p.bundle->0@)),
            )
            &&& windows[i].owner_pid != 0
            &&& audio_pids.contains(windows[i].owner_pid)
            &&& windows[i].name is Some
            &&& windows[i].name->0@.len() > 0
        },
    ensures
        ({
            let meeting = process_meeting(p, windows, audio_pids, on_screen);
            let title = windows[i].name->0@;
            &&& i == windows.len() ==> meeting is None
            &&& i < windows.len() && (crate::text::has_text(title, "Google Meet"@)
                || crate::text::has_text(title, "meet.google.com"@)) ==> meeting == Some(
                "Google Meet"@,
            )
            &&& i < windows.len() && !crate::text::has_text(title, "Google Meet"@)
                && !crate::text::has_text(title, "meet.google.com"@) ==> meeting is None
        }),
{
    lemma_browser_title(windows, crate::apps::bundle_owner(p.bundle->0@), audio_pids, i);
}

} // verus!
