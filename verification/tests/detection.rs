//! Meeting applications, processes and windows.
use side_huddle::apps::{
    bundle_to_owner_name, cg_window_owner, identify_by_bundle, identify_by_proc_name,
    identify_by_window_title, is_browser_bundle, is_meeting_bundle, MEETING_BUNDLES,
};
use side_huddle::detect::{active_input_pids, native_app, poll_active, AudioProcess};
use side_huddle::process::{proc_name, without_trailing_nuls};
use side_huddle::window::{
    capture_candidates, find_meeting_window, find_primary_window, is_meeting_title, owned_by,
    primary_of, title_is_chrome, window_exists, window_title_for_audio_input_pid, WindowInfo,
    MIN_AREA_KEY, MIN_SIDE_KEY,
};
use side_huddle::window_watcher::{Sighting, WindowWatcher, WINDOW_POLL_MS};

fn window(number: u32, owner: &str, name: &str, width: f64, height: f64) -> WindowInfo {
    WindowInfo {
        layer: Some(0),
        owner_name: Some(owner.to_string()),
        owner_pid: 100 + number,
        number: Some(number),
        name: Some(name.to_string()),
        has_bounds: true,
        width: width.to_bits(),
        height: height.to_bits(),
        area: (width * height).to_bits(),
        prejoin: false,
        chrome: false,
    }
}

fn process(bundle: &str, running_input: bool, pid: u32, name: &str) -> AudioProcess {
    AudioProcess {
        bundle: Some(bundle.to_string()),
        running_input,
        pid,
        name: name.to_string(),
    }
}

fn found(pid: u32, app: &str) -> (u32, String) {
    (pid, app.to_string())
}

#[test]
fn every_known_bundle_is_a_meeting_bundle() {
    for bundle in MEETING_BUNDLES {
        assert!(is_meeting_bundle(bundle));
        assert!(is_meeting_bundle(&format!("x.{}.helper", bundle)));
    }
    assert!(!is_meeting_bundle("com.apple.Music"));
    assert!(!is_meeting_bundle(""));
}

#[test]
fn apps_by_bundle() {
    assert_eq!(identify_by_bundle("com.microsoft.teams2"), Some("Microsoft Teams"));
    assert_eq!(identify_by_bundle("COM.MICROSOFT.TEAMS"), Some("Microsoft Teams"));
    assert_eq!(identify_by_bundle("us.zoom.xos"), Some("Zoom"));
    assert_eq!(identify_by_bundle("com.cisco.webexmeetingsapp"), Some("Cisco Webex"));
    assert_eq!(identify_by_bundle("com.apple.FaceTime"), Some("FaceTime"));
    assert_eq!(identify_by_bundle("com.tinyspeck.slackmacgap"), Some("Slack"));
    assert_eq!(identify_by_bundle("com.hnc.Discord"), Some("Discord"));
    assert_eq!(identify_by_bundle("com.google.chrome"), None);
}

#[test]
fn apps_by_process_name() {
    assert_eq!(identify_by_proc_name("MSTeams"), Some("Microsoft Teams"));
    assert_eq!(identify_by_proc_name("zoom.us"), Some("Zoom"));
    assert_eq!(identify_by_proc_name("Zoom"), Some("Zoom"));
    assert_eq!(identify_by_proc_name("zoomer"), None);
    assert_eq!(identify_by_proc_name("Webex Helper"), Some("Cisco Webex"));
    assert_eq!(identify_by_proc_name("FACETIME"), Some("FaceTime"));
    assert_eq!(identify_by_proc_name("slack"), Some("Slack"));
    assert_eq!(identify_by_proc_name("Discord"), Some("Discord"));
}

#[test]
fn apps_by_window_title() {
    assert_eq!(identify_by_window_title("Standup - Google Meet"), Some("Google Meet"));
    assert_eq!(identify_by_window_title("meet.google.com/abc"), Some("Google Meet"));
    assert_eq!(identify_by_window_title("google meet"), None);
}

#[test]
fn browsers_and_owners() {
    assert!(is_browser_bundle("com.google.Chrome"));
    assert!(is_browser_bundle("com.apple.Safari"));
    assert!(!is_browser_bundle("us.zoom.xos"));
    assert_eq!(bundle_to_owner_name("com.google.Chrome"), "Google Chrome");
    assert_eq!(bundle_to_owner_name("org.mozilla.firefox"), "Firefox");
    assert_eq!(bundle_to_owner_name("com.microsoft.edgemac"), "Microsoft Edge");
    assert_eq!(bundle_to_owner_name("us.zoom.xos"), "us.zoom.xos");
    assert_eq!(cg_window_owner("Microsoft TEAMS"), "Microsoft Teams");
    assert_eq!(cg_window_owner("Zoom"), "zoom.us");
    assert_eq!(cg_window_owner("Cisco Webex"), "Webex");
    assert_eq!(cg_window_owner("Slack"), "Slack");
    assert_eq!(cg_window_owner("Google Meet"), "Google Chrome");
    assert_eq!(cg_window_owner("Safari"), "Safari");
    assert_eq!(cg_window_owner("Firefox"), "Firefox");
    assert_eq!(cg_window_owner("FaceTime"), "FaceTime");
}

#[test]
fn order_keys_are_those_of_the_numbers() {
    assert_eq!(MIN_AREA_KEY, 10_000f64.to_bits());
    assert_eq!(MIN_SIDE_KEY, 200f64.to_bits());
    assert!(200.5f64.to_bits() > MIN_SIDE_KEY);
    assert!(199.5f64.to_bits() < MIN_SIDE_KEY);
}

#[test]
fn windows_of_an_owner() {
    let mut none = window(3, "", "", 1.0, 1.0);
    none.owner_name = None;
    let windows = vec![
        window(1, "Microsoft Teams", "", 1.0, 1.0),
        window(2, "MICROSOFT TEAMS (work)", "", 1.0, 1.0),
        none,
    ];
    assert_eq!(owned_by(&windows, "microsoft teams"), vec![true, true, false]);
    assert_eq!(owned_by(&windows, ""), vec![true, true, true]);
}

#[test]
fn the_primary_window_is_the_first_of_the_largest() {
    let mut overlay = window(9, "zoom.us", "overlay", 3000.0, 2000.0);
    overlay.layer = Some(3);
    let mut numberless = window(8, "zoom.us", "x", 3000.0, 2000.0);
    numberless.number = None;
    let mut untold = window(4, "zoom.us", "", 800.0, 600.0);
    untold.layer = None;
    let windows = vec![
        overlay,
        numberless,
        window(1, "zoom.us", "tiny", 10.0, 10.0),
        window(2, "zoom.us", "small", 100.0, 100.0),
        untold,
        window(5, "zoom.us", "same size", 800.0, 600.0),
        window(6, "Safari", "other", 2000.0, 2000.0),
    ];
    assert_eq!(
        find_primary_window(&windows, "zoom.us"),
        Some((4, "(active window)".to_string()))
    );
    assert_eq!(
        find_primary_window(&windows, "safari"),
        Some((6, "other".to_string()))
    );
    assert_eq!(find_primary_window(&windows, "Webex"), None);
    assert_eq!(
        primary_of(&windows, &vec![false, false, false, true, false, false, false]),
        Some(3)
    );
}

#[test]
fn windows_by_number() {
    let mut numberless = window(0, "a", "b", 1.0, 1.0);
    numberless.number = None;
    let mut chrome = window(7, "a", "Calendar", 1.0, 1.0);
    chrome.chrome = true;
    let windows = vec![numberless, window(5, "a", "b", 1.0, 1.0), chrome];
    assert!(window_exists(&windows, 5));
    assert!(!window_exists(&windows, 6));
    assert!(!window_exists(&windows, 0));
    assert_eq!(title_is_chrome(&windows, 5), Some(false));
    assert_eq!(title_is_chrome(&windows, 7), Some(true));
    assert_eq!(title_is_chrome(&windows, 9), None);
}

#[test]
fn the_title_of_the_window_with_audio() {
    let windows = vec![
        window(1, "Google Chrome", "", 1.0, 1.0),
        window(2, "Google Chrome", "Mail", 1.0, 1.0),
        window(3, "Google Chrome", "Standup - Google Meet", 1.0, 1.0),
    ];
    let title = |pids: Vec<u32>| window_title_for_audio_input_pid(&windows, "Google Chrome", &pids);
    assert_eq!(title(vec![103]), Some("Standup - Google Meet".to_string()));
    assert_eq!(title(vec![103, 102]), Some("Mail".to_string()));
    assert_eq!(title(vec![101]), None);
    assert_eq!(title(vec![]), None);
}

#[test]
fn titles_of_meetings() {
    assert!(is_meeting_title("Weekly sync"));
    assert!(is_meeting_title("Microsoft Teams meeting"));
    assert!(!is_meeting_title("Microsoft Teams"));
    assert!(!is_meeting_title(""));
    for other in [
        "Calendar | x", "Chat", "Activity", "Calls", "OneDrive", "Teams NRC", "Viva", "Engage",
        "Copilot", "Microsoft Teams\0x",
    ] {
        assert!(!is_meeting_title(other));
    }
}

#[test]
fn the_meeting_window() {
    let mut boundless = window(9, "Teams", "Weekly", 900.0, 900.0);
    boundless.has_bounds = false;
    let windows = vec![
        window(1, "Microsoft Teams", "Calendar", 1000.0, 800.0),
        window(2, "Microsoft Teams", "Weekly", 300.0, 200.0),
        window(3, "Microsoft Teams", "Weekly", 900.0, 800.0),
        window(4, "Microsoft Teams", "Weekly", 199.0, 800.0),
        boundless,
    ];
    let candidates = capture_candidates(&windows, "teams");
    assert_eq!(candidates, vec![true, true, true, false, false]);
    assert_eq!(find_meeting_window(&windows, &candidates), Some(1));
    let without = vec![true, false, false, false, false];
    assert_eq!(find_meeting_window(&windows, &without), Some(0));
    assert_eq!(find_meeting_window(&windows, &vec![false; 5]), None);
}

#[test]
fn processes_that_use_the_microphone() {
    let processes = vec![
        process("a", true, 1, ""),
        process("b", false, 2, ""),
        process("c", true, 3, ""),
    ];
    assert_eq!(active_input_pids(&processes), vec![1, 3]);
}

#[test]
fn names_of_native_apps() {
    assert_eq!(native_app(Some("Zoom"), Some("Slack"), "b"), "Zoom");
    assert_eq!(native_app(None, Some("Slack"), "b"), "Slack");
    assert_eq!(native_app(None, None, "b"), "b");
}

#[test]
fn polling_finds_the_first_meeting() {
    let processes = vec![
        AudioProcess {
            bundle: None,
            running_input: true,
            pid: 1,
            name: "zoom.us".to_string(),
        },
        process("com.apple.Music", true, 2, "Music"),
        process("us.zoom.xos", false, 3, "zoom.us"),
        process("com.microsoft.teams2", true, 4, "MSTeams"),
        process("us.zoom.xos", true, 5, "zoom.us"),
    ];
    assert_eq!(poll_active(&processes, &vec![], &vec![]), found(4, "Microsoft Teams"));
    assert_eq!(poll_active(&vec![], &vec![], &vec![]), found(0, ""));
}

#[test]
fn a_browser_needs_a_meeting_window() {
    let processes = vec![process("com.google.chrome.helper", true, 103, "Chrome")];
    let mut windows = vec![window(3, "Google Chrome", "Standup - Google Meet", 800.0, 600.0)];
    assert_eq!(poll_active(&processes, &windows, &vec![]), found(103, "Google Meet"));
    windows[0].name = Some("Mail".to_string());
    assert_eq!(poll_active(&processes, &windows, &vec![]), found(0, ""));
}

#[test]
fn a_screen_before_joining_is_no_meeting() {
    let processes = vec![process("us.zoom.xos", true, 5, "zoom.us")];
    let mut on_screen = vec![window(1, "zoom.us", "Join", 800.0, 600.0)];
    assert_eq!(poll_active(&processes, &vec![], &on_screen), found(5, "Zoom"));
    on_screen[0].prejoin = true;
    assert_eq!(poll_active(&processes, &vec![], &on_screen), found(0, ""));
    on_screen.push(window(2, "zoom.us", "Zoom Meeting", 900.0, 700.0));
    assert_eq!(poll_active(&processes, &vec![], &on_screen), found(5, "Zoom"));
}

#[test]
fn names_of_processes() {
    let mut buffer = b"zoom.us\0\0".to_vec();
    buffer.resize(1024, 0);
    assert_eq!(proc_name(&buffer, 9), "zoom.us");
    assert_eq!(proc_name(&buffer, 4), "zoom");
    assert_eq!(proc_name(&buffer, 0), "");
    assert_eq!(proc_name(&buffer, -1), "");
    assert_eq!(proc_name(&vec![b'a', 0xFF, b'b'], 3), "a\u{FFFD}b");
    assert_eq!(without_trailing_nuls("\0a\0b\0\0"), "\0a\0b");
    assert_eq!(without_trailing_nuls("\0"), "");
}

#[test]
fn the_watcher_identifies_and_closes_once() {
    assert_eq!(WINDOW_POLL_MS, 3000);
    let mut w = WindowWatcher::start("zoom.us".to_string());
    assert_eq!(w.tick(&vec![], &vec![]), Sighting::Nothing);
    let windows = vec![window(1, "zoom.us", "Standup", 800.0, 600.0)];
    assert_eq!(w.tick(&windows, &windows), Sighting::Identified("Standup".to_string()));
    assert_eq!(w.tick(&windows, &windows), Sighting::Nothing);
    assert!(!w.is_closed());
    assert_eq!(w.tick(&windows, &vec![]), Sighting::Closed);
    assert!(w.is_closed());
    assert_eq!(w.tick(&windows, &windows), Sighting::Nothing);
}

#[test]
fn the_watcher_reads_the_title() {
    let mut w = WindowWatcher::start("Microsoft Teams".to_string());
    let meeting = vec![window(1, "Microsoft Teams", "Weekly", 800.0, 600.0)];
    let mut calendar = meeting.clone();
    calendar[0].name = Some("Calendar".to_string());
    calendar[0].chrome = true;
    assert_eq!(w.tick(&calendar, &calendar), Sighting::Identified("Calendar".to_string()));
    assert_eq!(w.tick(&calendar, &calendar), Sighting::Nothing);
    assert_eq!(w.tick(&meeting, &meeting), Sighting::Nothing);
    let mut untitled = calendar.clone();
    untitled[0].name = None;
    assert_eq!(w.tick(&untitled, &untitled), Sighting::Nothing);
    assert_eq!(w.tick(&calendar, &calendar), Sighting::Closed);
}

#[test]
fn the_watcher_takes_plain_sightings() {
    let mut w = WindowWatcher::start("a".to_string());
    assert_eq!(w.searched(None), Sighting::Nothing);
    assert_eq!(
        w.searched(Some((4, "t".to_string(), true))),
        Sighting::Identified("t".to_string())
    );
    assert_eq!(w.checked(true, Some(true)), Sighting::Nothing);
    assert_eq!(w.checked(true, Some(false)), Sighting::Nothing);
    assert_eq!(w.checked(true, None), Sighting::Nothing);
    assert_eq!(w.checked(true, Some(true)), Sighting::Closed);
}

#[test]
fn known_bundles_without_an_application_are_browsers() {
    for bundle in MEETING_BUNDLES {
        assert_eq!(identify_by_bundle(bundle).is_none(), is_browser_bundle(bundle));
        assert_eq!(identify_by_bundle(&bundle.to_ascii_uppercase()), identify_by_bundle(bundle));
    }
}

#[test]
fn lowercase_goes_beyond_ascii() {
    let kelvin = "SLAC\u{212A}";
    assert_eq!(identify_by_proc_name(kelvin), Some("Slack"));
    assert_eq!(cg_window_owner(kelvin), "Slack");
}

#[test]
fn a_window_owner_is_its_own() {
    let apps = [
        "Microsoft Teams", "Zoom", "Cisco Webex", "Slack", "Google Meet", "Safari", "Firefox",
        "FaceTime", "Änderung",
    ];
    for app in apps {
        let owner = cg_window_owner(app);
        assert_eq!(cg_window_owner(&owner), owner);
    }
}
