//! Known meeting applications: by bundle id, by process name, by window title.
use vstd::prelude::*;

use crate::text::{contains, same_text, to_lowercase};

verus! {

/// macOS CoreAudio bundle id parts that indicate a meeting application. The
/// browsers among them are cross-referenced with window titles.
pub const MEETING_BUNDLES: [&'static str; 11] = [
    "com.microsoft.teams2",
    "com.microsoft.teams",
    "us.zoom.xos",
    "com.cisco.webexmeetingsapp",
    "com.apple.FaceTime",
    "com.tinyspeck.slackmacgap",
    "com.hnc.Discord",
    "com.google.chrome",
    "com.apple.Safari",
    "org.mozilla.firefox",
    "com.microsoft.edgemac",
];

/// `bundle` contains one of the known bundle id parts.
pub open spec fn meeting_bundle(bundle: Seq<char>) -> bool {
    exists|i: int|
        0 <= i < MEETING_BUNDLES@.len() && crate::text::has_text(
            bundle,
            #[trigger] MEETING_BUNDLES@[i]@,
        )
}

/// Whether `bundle` contains one of the known bundle id parts.
pub fn is_meeting_bundle(bundle: &str) -> (known: bool)
    ensures
        known == meeting_bundle(bundle@),
{
    let mut i: usize = 0;
    while i < 11
        invariant
            i <= 11,
            forall|k: int|
                0 <= k < i ==> !crate::text::has_text(bundle@, #[trigger] MEETING_BUNDLES@[k]@),
        decreases 11 - i,
    {
        if contains(bundle, MEETING_BUNDLES[i]) {
            return true;
        }
        i = i + 1;
    }
    false
}

/// The application that a lowercase bundle id belongs to. Browsers have none:
/// their windows decide.
pub open spec fn bundle_app(b: Seq<char>) -> Option<Seq<char>> {
    if crate::text::has_text(b, "com.microsoft.teams"@) {
        Some("Microsoft Teams"@)
    } else if crate::text::has_text(b, "us.zoom.xos"@) {
        Some("Zoom"@)
    } else if crate::text::has_text(b, "cisco.webex"@) {
        Some("Cisco Webex"@)
    } else if crate::text::has_text(b, "facetime"@) {
        Some("FaceTime"@)
    } else if crate::text::has_text(b, "slackmacgap"@) {
        Some("Slack"@)
    } else if crate::text::has_text(b, "discord"@) {
        Some("Discord"@)
    } else {
        None
    }
}

/// The display name of the application that a lowercase bundle id belongs to.
pub fn identify_lowercase_bundle(b: &str) -> (app: Option<&'static str>)
    ensures
        crate::text::opt_text(app) == bundle_app(b@),
{
    if contains(b, "com.microsoft.teams") {
        return Some("Microsoft Teams");
    }
    if contains(b, "us.zoom.xos") {
        return Some("Zoom");
    }
    if contains(b, "cisco.webex") {
        return Some("Cisco Webex");
    }
    if contains(b, "facetime") {
        return Some("FaceTime");
    }
    if contains(b, "slackmacgap") {
        return Some("Slack");
    }
    if contains(b, "discord") {
        return Some("Discord");
    }
    None
}

/// The display name of the application that a bundle id belongs to, letter case
/// set aside.
pub fn identify_by_bundle(bundle: &str) -> (app: Option<&'static str>)
    ensures
        crate::text::opt_text(app) == bundle_app(crate::text::lowercase(bundle@)),
{
    identify_lowercase_bundle(to_lowercase(bundle).as_str())
}

/// The application that a lowercase process name belongs to.
pub open spec fn proc_app(n: Seq<char>) -> Option<Seq<char>> {
    if n == "msteams"@ || crate::text::has_text(n, "teams"@) {
        Some("Microsoft Teams"@)
    } else if n == "zoom.us"@ || n == "zoom"@ {
        Some("Zoom"@)
    } else if crate::text::has_text(n, "webex"@) {
        Some("Cisco Webex"@)
    } else if n == "facetime"@ {
        Some("FaceTime"@)
    } else if n == "slack"@ {
        Some("Slack"@)
    } else if n == "discord"@ {
        Some("Discord"@)
    } else {
        None
    }
}

/// The display name of the application that a lowercase process name belongs
/// to.
pub fn identify_lowercase_proc_name(n: &str) -> (app: Option<&'static str>)
    ensures
        crate::text::opt_text(app) == proc_app(n@),
{
    if same_text(n, "msteams") || contains(n, "teams") {
        return Some("Microsoft Teams");
    }
    if same_text(n, "zoom.us") || same_text(n, "zoom") {
        return Some("Zoom");
    }
    if contains(n, "webex") {
        return Some("Cisco Webex");
    }
    if same_text(n, "facetime") {
        return Some("FaceTime");
    }
    if same_text(n, "slack") {
        return Some("Slack");
    }
    if same_text(n, "discord") {
        return Some("Discord");
    }
    None
}

/// The display name of the application that a process name belongs to, letter
/// case set aside.
pub fn identify_by_proc_name(name: &str) -> (app: Option<&'static str>)
    ensures
        crate::text::opt_text(app) == proc_app(crate::text::lowercase(name@)),
{
    identify_lowercase_proc_name(to_lowercase(name).as_str())
}

/// The browser-based meeting that a window title belongs to.
pub open spec fn title_app(title: Seq<char>) -> Option<Seq<char>> {
    if crate::text::has_text(title, "Google Meet"@) || crate::text::has_text(
        title,
        "meet.google.com"@,
    ) {
        Some("Google Meet"@)
    } else {
        None
    }
}

/// The display name of the browser-based meeting that a window title belongs
/// to.
pub fn identify_by_window_title(title: &str) -> (app: Option<&'static str>)
    ensures
        crate::text::opt_text(app) == title_app(title@),
{
    if contains(title, "Google Meet") || contains(title, "meet.google.com") {
        return Some("Google Meet");
    }
    None
}

/// A lowercase bundle id is that of a browser.
pub open spec fn browser_bundle(b: Seq<char>) -> bool {
    ||| crate::text::has_text(b, "com.google.chrome"@)
    ||| crate::text::has_text(b, "com.apple.safari"@)
    ||| crate::text::has_text(b, "org.mozilla.firefox"@)
    ||| crate::text::has_text(b, "com.microsoft.edgemac"@)
}

/// Whether a lowercase bundle id is that of a browser.
pub fn is_lowercase_browser_bundle(b: &str) -> (browser: bool)
    ensures
        browser == browser_bundle(b@),
{
    contains(b, "com.google.chrome") || contains(b, "com.apple.safari") || contains(
        b,
        "org.mozilla.firefox",
    ) || contains(b, "com.microsoft.edgemac")
}

/// Whether a bundle id is that of a browser, letter case set aside.
pub fn is_browser_bundle(bundle: &str) -> (browser: bool)
    ensures
        browser == browser_bundle(crate::text::lowercase(bundle@)),
{
    is_lowercase_browser_bundle(to_lowercase(bundle).as_str())
}

/// The window owner of the browser that a lowercase bundle id belongs to.
pub open spec fn browser_owner(b: Seq<char>) -> Option<Seq<char>> {
    if crate::text::has_text(b, "com.google.chrome"@) {
        Some("Google Chrome"@)
    } else if crate::text::has_text(b, "com.apple.safari"@) {
        Some("Safari"@)
    } else if crate::text::has_text(b, "org.mozilla"@) {
        Some("Firefox"@)
    } else if crate::text::has_text(b, "com.microsoft.edge"@) {
        Some("Microsoft Edge"@)
    } else {
        None
    }
}

/// The window owner of the browser that a lowercase bundle id belongs to.
pub fn owner_of_lowercase_bundle(b: &str) -> (owner: Option<&'static str>)
    ensures
        crate::text::opt_text(owner) == browser_owner(b@),
{
    if contains(b, "com.google.chrome") {
        return Some("Google Chrome");
    }
    if contains(b, "com.apple.safari") {
        return Some("Safari");
    }
    if contains(b, "org.mozilla") {
        return Some("Firefox");
    }
    if contains(b, "com.microsoft.edge") {
        return Some("Microsoft Edge");
    }
    None
}

/// The name that owns the windows of a browser, and the bundle id itself where
/// it is no known browser's.
pub open spec fn bundle_owner(bundle: Seq<char>) -> Seq<char> {
    match browser_owner(crate::text::lowercase(bundle)) {
        Some(owner) => owner,
        None => bundle,
    }
}

/// The name that owns the windows of the browser with this bundle id; the
/// bundle id itself where it is no known browser's.
pub fn bundle_to_owner_name(bundle: &str) -> (owner: String)
    ensures
        owner@ == bundle_owner(bundle@),
{
    match owner_of_lowercase_bundle(to_lowercase(bundle).as_str()) {
        Some(owner) => owner.to_owned(),
        None => bundle.to_owned(),
    }
}

/// The window owner of the application whose lowercase name is given.
pub open spec fn app_owner(lower: Seq<char>) -> Option<Seq<char>> {
    if crate::text::has_text(lower, "teams"@) {
        Some("Microsoft Teams"@)
    } else if crate::text::has_text(lower, "zoom"@) {
        Some("zoom.us"@)
    } else if crate::text::has_text(lower, "webex"@) {
        Some("Webex"@)
    } else if crate::text::has_text(lower, "slack"@) {
        Some("Slack"@)
    } else if crate::text::has_text(lower, "google meet"@) || crate::text::has_text(
        lower,
        "chrome"@,
    ) {
        Some("Google Chrome"@)
    } else if crate::text::has_text(lower, "safari"@) {
        Some("Safari"@)
    } else if crate::text::has_text(lower, "firefox"@) {
        Some("Firefox"@)
    } else {
        None
    }
}

/// The window owner of the application whose lowercase name is given.
pub fn owner_of_lowercase_app(lower: &str) -> (owner: Option<&'static str>)
    ensures
        crate::text::opt_text(owner) == app_owner(lower@),
{
    if contains(lower, "teams") {
        return Some("Microsoft Teams");
    }
    if contains(lower, "zoom") {
        return Some("zoom.us");
    }
    if contains(lower, "webex") {
        return Some("Webex");
    }
    if contains(lower, "slack") {
        return Some("Slack");
    }
    if contains(lower, "google meet") || contains(lower, "chrome") {
        return Some("Google Chrome");
    }
    if contains(lower, "safari") {
        return Some("Safari");
    }
    if contains(lower, "firefox") {
        return Some("Firefox");
    }
    None
}

/// The name that owns the windows of an application, and the application's own
/// name where no other is known.
pub open spec fn window_owner(app: Seq<char>) -> Seq<char> {
    match app_owner(crate::text::lowercase(app)) {
        Some(owner) => owner,
        None => app,
    }
}

/// The name that owns the windows of the application with this display name.
pub fn cg_window_owner(app: &str) -> (owner: String)
    ensures
        owner@ == window_owner(app@),
{
    match owner_of_lowercase_app(to_lowercase(app).as_str()) {
        Some(owner) => owner.to_owned(),
        None => app.to_owned(),
    }
}

/// Which bundle ids are a meeting application's: those that have one of the known parts
/// in them, letter case included.
pub proof fn law_known_bundle_parts(bundle: Seq<char>)
    ensures
        meeting_bundle(bundle) <==> {
            ||| crate::text::has_text(bundle, "com.microsoft.teams2"@)
            ||| crate::text::has_text(bundle, "com.microsoft.teams"@)
            ||| crate::text::has_text(bundle, "us.zoom.xos"@)
            ||| crate::text::has_text(bundle, "com.cisco.webexmeetingsapp"@)
            ||| crate::text::has_text(bundle, "com.apple.FaceTime"@)
            ||| crate::text::has_text(bundle, "com.tinyspeck.slackmacgap"@)
            ||| crate::text::has_text(bundle, "com.hnc.Discord"@)
            ||| crate::text::has_text(bundle, "com.google.chrome"@)
            ||| crate::text::has_text(bundle, "com.apple.Safari"@)
            ||| crate::text::has_text(bundle, "org.mozilla.firefox"@)
            ||| crate::text::has_text(bundle, "com.microsoft.edgemac"@)
        },
{
    assert(MEETING_BUNDLES@[0]@ == "com.microsoft.teams2"@);
    assert(MEETING_BUNDLES@[1]@ == "com.microsoft.teams"@);
    assert(MEETING_BUNDLES@[2]@ == "us.zoom.xos"@);
    assert(MEETING_BUNDLES@[3]@ == "com.cisco.webexmeetingsapp"@);
    assert(MEETING_BUNDLES@[4]@ == "com.apple.FaceTime"@);
    assert(MEETING_BUNDLES@[5]@ == "com.tinyspeck.slackmacgap"@);
    assert(MEETING_BUNDLES@[6]@ == "com.hnc.Discord"@);
    assert(MEETING_BUNDLES@[7]@ == "com.google.chrome"@);
    assert(MEETING_BUNDLES@[8]@ == "com.apple.Safari"@);
    assert(MEETING_BUNDLES@[9]@ == "org.mozilla.firefox"@);
    assert(MEETING_BUNDLES@[10]@ == "com.microsoft.edgemac"@);
}

/// A lowercase bundle id belongs to an application only by the part that stands for that
/// application, and a part that stands in it decides unless one that goes before does.
pub proof fn law_bundle_tells_the_application(b: Seq<char>)
    ensures
        ({
            let teams = crate::text::has_text(b, "com.microsoft.teams"@);
            let zoom = crate::text::has_text(b, "us.zoom.xos"@);
            let webex = crate::text::has_text(b, "cisco.webex"@);
            let facetime = crate::text::has_text(b, "facetime"@);
            let slack = crate::text::has_text(b, "slackmacgap"@);
            let discord = crate::text::has_text(b, "discord"@);
            &&& teams ==> bundle_app(b) == Some("Microsoft Teams"@)
            &&& zoom && !teams ==> bundle_app(b) == Some("Zoom"@)
            &&& webex && !teams && !zoom ==> bundle_app(b) == Some("Cisco Webex"@)
            &&& facetime && !teams && !zoom && !webex ==> bundle_app(b) == Some("FaceTime"@)
            &&& slack && !teams && !zoom && !webex && !facetime ==> bundle_app(b) == Some("Slack"@)
            &&& discord && !teams && !zoom && !webex && !facetime && !slack ==> bundle_app(b)
                == Some("Discord"@)
            &&& !teams && !zoom && !webex && !facetime && !slack && !discord ==> bundle_app(b)
                is None
        }),
        browser_bundle(b) <==> crate::text::has_text(b, "com.google.chrome"@)
            || crate::text::has_text(b, "com.apple.safari"@) || crate::text::has_text(
            b,
            "org.mozilla.firefox"@,
        ) || crate::text::has_text(b, "com.microsoft.edgemac"@),
{
}

/// A lowercase process name belongs to an application where it is that application's
/// name; of Teams and of Webex it is enough that the name stands in it.
pub proof fn law_process_tells_the_application(n: Seq<char>)
    ensures
        ({
            let teams = n == "msteams"@ || crate::text::has_text(n, "teams"@);
            let zoom = n == "zoom.us"@ || n == "zoom"@;
            let webex = crate::text::has_text(n, "webex"@);
            &&& teams ==> proc_app(n) == Some("Microsoft Teams"@)
            &&& zoom && !teams ==> proc_app(n) == Some("Zoom"@)
            &&& webex && !teams && !zoom ==> proc_app(n) == Some("Cisco Webex"@)
            &&& n == "facetime"@ && !teams && !zoom && !webex ==> proc_app(n) == Some("FaceTime"@)
            &&& n == "slack"@ && n != "facetime"@ && !teams && !zoom && !webex ==> proc_app(n)
                == Some("Slack"@)
            &&& n == "discord"@ && n != "facetime"@ && n != "slack"@ && !teams && !zoom && !webex
                ==> proc_app(n) == Some("Discord"@)
            &&& !teams && !zoom && !webex && n != "facetime"@ && n != "slack"@ && n != "discord"@
                ==> proc_app(n) is None
        }),
{
}

/// A window title tells of a meeting exactly where it has the name or the address of
/// Google Meet in it.
pub proof fn law_title_tells_the_meeting(title: Seq<char>)
    ensures
        crate::text::has_text(title, "Google Meet"@) ==> title_app(title) == Some("Google Meet"@),
        crate::text::has_text(title, "meet.google.com"@) ==> title_app(title) == Some(
            "Google Meet"@,
        ),
        !crate::text::has_text(title, "Google Meet"@) && !crate::text::has_text(
            title,
            "meet.google.com"@,
        ) ==> title_app(title) is None,
{
}

/// The windows of a browser belong to the browser that the bundle id stands for; those of
/// anything else to the bundle id itself.
pub proof fn law_browser_owns_its_windows(bundle: Seq<char>)
    ensures
        ({
            let b = crate::text::lowercase(bundle);
            let chrome = crate::text::has_text(b, "com.google.chrome"@);
            let safari = crate::text::has_text(b, "com.apple.safari"@);
            let mozilla = crate::text::has_text(b, "org.mozilla"@);
            let edge = crate::text::has_text(b, "com.microsoft.edge"@);
            &&& chrome ==> bundle_owner(bundle) == "Google Chrome"@
            &&& safari && !chrome ==> bundle_owner(bundle) == "Safari"@
            &&& mozilla && !chrome && !safari ==> bundle_owner(bundle) == "Firefox"@
            &&& edge && !chrome && !safari && !mozilla ==> bundle_owner(bundle)
                == "Microsoft Edge"@
            &&& !chrome && !safari && !mozilla && !edge ==> bundle_owner(bundle) == bundle
        }),
{
}

/// The windows of an application belong to the process that its name stands for.
pub proof fn law_application_owns_its_windows(app: Seq<char>)
    ensures
        ({
            let l = crate::text::lowercase(app);
            let teams = crate::text::has_text(l, "teams"@);
            let zoom = crate::text::has_text(l, "zoom"@);
            let webex = crate::text::has_text(l, "webex"@);
            let slack = crate::text::has_text(l, "slack"@);
            let meet = crate::text::has_text(l, "google meet"@) || crate::text::has_text(
                l,
                "chrome"@,
            );
            let safari = crate::text::has_text(l, "safari"@);
            let firefox = crate::text::has_text(l, "firefox"@);
            &&& teams ==> window_owner(app) == "Microsoft Teams"@
            &&& zoom && !teams ==> window_owner(app) == "zoom.us"@
            &&& webex && !teams && !zoom ==> window_owner(app) == "Webex"@
            &&& slack && !teams && !zoom && !webex ==> window_owner(app) == "Slack"@
            &&& meet && !teams && !zoom && !webex && !slack ==> window_owner(app)
                == "Google Chrome"@
            &&& safari && !teams && !zoom && !webex && !slack && !meet ==> window_owner(app)
                == "Safari"@
            &&& firefox && !teams && !zoom && !webex && !slack && !meet && !safari
                ==> window_owner(app) == "Firefox"@
        }),
{
}

} // verus!
