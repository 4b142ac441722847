//! What holds of the known meeting applications: letter case plays no part, bundle ids
//! without an application are browsers, and window owners are their own.
use vstd::prelude::*;

use crate::apps::MEETING_BUNDLES;

verus! {

/// In which case the letters of a bundle id, of the name of a process or of the name of
/// an application are written plays no part in what it belongs to. Stated of ASCII
/// texts.
pub proof fn law_letter_case_plays_no_part(text: Seq<char>)
    requires
        crate::text::ascii(text),
    ensures
        ({
            let upper = crate::text::lowercase(crate::text::ascii_uppercase(text));
            let lower = crate::text::lowercase(text);
            &&& crate::apps::bundle_app(upper) == crate::apps::bundle_app(lower)
            &&& crate::apps::browser_bundle(upper) == crate::apps::browser_bundle(lower)
            &&& crate::apps::browser_owner(upper) == crate::apps::browser_owner(lower)
            &&& crate::apps::proc_app(upper) == crate::apps::proc_app(lower)
            &&& crate::apps::app_owner(upper) == crate::apps::app_owner(lower)
        }),
{
    crate::text::lemma_lowercase_of_uppercase(text);
}

/// The known bundle ids that belong to no application are those of the browsers.
pub proof fn law_bundles_without_app_are_browsers(i: int)
    requires
        0 <= i < MEETING_BUNDLES@.len(),
    ensures
        ({
            let lower = crate::text::lowercase(MEETING_BUNDLES@[i]@);
            crate::apps::bundle_app(lower) is None <==> crate::apps::browser_bundle(lower)
        }),
{
    lemma_teams2_bundle();
    lemma_teams_bundle();
    lemma_zoom_bundle();
    lemma_webex_bundle();
    lemma_facetime_bundle();
    lemma_slack_bundle();
    lemma_discord_bundle();
    lemma_chrome_bundle();
    lemma_safari_bundle();
    lemma_firefox_bundle();
    lemma_edge_bundle();
    assert(i == 0 || i == 1 || i == 2 || i == 3 || i == 4 || i == 5 || i == 6 || i == 7 || i == 8
        || i == 9 || i == 10);
}

/// This known bundle id is an application's, and no browser's.
proof fn lemma_teams2_bundle()
    ensures
        crate::apps::bundle_app(crate::text::lowercase("com.microsoft.teams2"@)) is Some,
        !crate::apps::browser_bundle(crate::text::lowercase("com.microsoft.teams2"@)),
{
    let s = "com.microsoft.teams2"@;
    assert(crate::text::lowercase("com.microsoft.teams2"@) == s) by {
        reveal_strlit("com.microsoft.teams2");
        reveal_with_fuel(crate::text::lowers_to, 21);
        crate::text::lemma_lowercase_is("com.microsoft.teams2"@, s);
    }
    assert(!crate::apps::browser_bundle(s)) by {
        reveal_strlit("com.microsoft.teams2");
        reveal_strlit("com.google.chrome");
        reveal_strlit("com.apple.safari");
        reveal_strlit("org.mozilla.firefox");
        reveal_strlit("com.microsoft.edgemac");
        reveal_with_fuel(crate::text::apart, 20);
        crate::text::lemma_lacks_text(s, "com.google.chrome"@, 3);
        crate::text::lemma_lacks_text(s, "com.apple.safari"@, 3);
        crate::text::lemma_lacks_text(s, "org.mozilla.firefox"@, 0);
        crate::text::lemma_lacks_text(s, "com.microsoft.edgemac"@, 13);
    }
    assert(crate::apps::bundle_app(s) is Some) by {
        reveal_strlit("com.microsoft.teams2");
        reveal_strlit("com.microsoft.teams");
        reveal_with_fuel(crate::text::stands_at, 20);
        crate::text::lemma_has_text(s, "com.microsoft.teams"@, 0);
    }
}

/// This known bundle id is an application's, and no browser's.
proof fn lemma_teams_bundle()
    ensures
        crate::apps::bundle_app(crate::text::lowercase("com.microsoft.teams"@)) is Some,
        !crate::apps::browser_bundle(crate::text::lowercase("com.microsoft.teams"@)),
{
    let s = "com.microsoft.teams"@;
    assert(crate::text::lowercase("com.microsoft.teams"@) == s) by {
        reveal_strlit("com.microsoft.teams");
        reveal_with_fuel(crate::text::lowers_to, 20);
        crate::text::lemma_lowercase_is("com.microsoft.teams"@, s);
    }
    assert(!crate::apps::browser_bundle(s)) by {
        reveal_strlit("com.microsoft.teams");
        reveal_strlit("com.google.chrome");
        reveal_strlit("com.apple.safari");
        reveal_strlit("org.mozilla.firefox");
        reveal_strlit("com.microsoft.edgemac");
        reveal_with_fuel(crate::text::apart, 19);
        crate::text::lemma_lacks_text(s, "com.google.chrome"@, 3);
        crate::text::lemma_lacks_text(s, "com.apple.safari"@, 3);
        crate::text::lemma_lacks_text(s, "org.mozilla.firefox"@, 0);
        crate::text::lemma_lacks_text(s, "com.microsoft.edgemac"@, 13);
    }
    assert(crate::apps::bundle_app(s) is Some) by {
        crate::text::lemma_has_itself(s);
    }
}

/// This known bundle id is an application's, and no browser's.
proof fn lemma_zoom_bundle()
    ensures
        crate::apps::bundle_app(crate::text::lowercase("us.zoom.xos"@)) is Some,
        !crate::apps::browser_bundle(crate::text::lowercase("us.zoom.xos"@)),
{
    let s = "us.zoom.xos"@;
    assert(crate::text::lowercase("us.zoom.xos"@) == s) by {
        reveal_strlit("us.zoom.xos");
        reveal_with_fuel(crate::text::lowers_to, 12);
        crate::text::lemma_lowercase_is("us.zoom.xos"@, s);
    }
    assert(!crate::apps::browser_bundle(s)) by {
        reveal_strlit("us.zoom.xos");
        reveal_strlit("com.google.chrome");
        reveal_strlit("com.apple.safari");
        reveal_strlit("org.mozilla.firefox");
        reveal_strlit("com.microsoft.edgemac");
        reveal_with_fuel(crate::text::apart, 11);
        crate::text::lemma_lacks_text(s, "com.google.chrome"@, 0);
        crate::text::lemma_lacks_text(s, "com.apple.safari"@, 0);
        crate::text::lemma_lacks_text(s, "org.mozilla.firefox"@, 0);
        crate::text::lemma_lacks_text(s, "com.microsoft.edgemac"@, 0);
    }
    assert(crate::apps::bundle_app(s) is Some) by {
        crate::text::lemma_has_itself(s);
    }
}

/// This known bundle id is an application's, and no browser's.
proof fn lemma_webex_bundle()
    ensures
        crate::apps::bundle_app(crate::text::lowercase("com.cisco.webexmeetingsapp"@)) is Some,
        !crate::apps::browser_bundle(crate::text::lowercase("com.cisco.webexmeetingsapp"@)),
{
    let s = "com.cisco.webexmeetingsapp"@;
    assert(crate::text::lowercase("com.cisco.webexmeetingsapp"@) == s) by {
        reveal_strlit("com.cisco.webexmeetingsapp");
        reveal_with_fuel(crate::text::lowers_to, 27);
        crate::text::lemma_lowercase_is("com.cisco.webexmeetingsapp"@, s);
    }
    assert(!crate::apps::browser_bundle(s)) by {
        reveal_strlit("com.cisco.webexmeetingsapp");
        reveal_strlit("com.google.chrome");
        reveal_strlit("com.apple.safari");
        reveal_strlit("org.mozilla.firefox");
        reveal_strlit("com.microsoft.edgemac");
        reveal_with_fuel(crate::text::apart, 26);
        crate::text::lemma_lacks_text(s, "com.google.chrome"@, 3);
        crate::text::lemma_lacks_text(s, "com.apple.safari"@, 3);
        crate::text::lemma_lacks_text(s, "org.mozilla.firefox"@, 0);
        crate::text::lemma_lacks_text(s, "com.microsoft.edgemac"@, 3);
    }
    assert(crate::apps::bundle_app(s) is Some) by {
        reveal_strlit("com.cisco.webexmeetingsapp");
        reveal_strlit("cisco.webex");
        reveal_with_fuel(crate::text::stands_at, 12);
        crate::text::lemma_has_text(s, "cisco.webex"@, 4);
    }
}

/// This known bundle id is an application's, and no browser's.
proof fn lemma_facetime_bundle()
    ensures
        crate::apps::bundle_app(crate::text::lowercase("com.apple.FaceTime"@)) is Some,
        !crate::apps::browser_bundle(crate::text::lowercase("com.apple.FaceTime"@)),
{
    let s = "com.apple.facetime"@;
    assert(crate::text::lowercase("com.apple.FaceTime"@) == s) by {
        reveal_strlit("com.apple.FaceTime");
        reveal_strlit("com.apple.facetime");
        reveal_with_fuel(crate::text::lowers_to, 19);
        crate::text::lemma_lowercase_is("com.apple.FaceTime"@, s);
    }
    assert(!crate::apps::browser_bundle(s)) by {
        reveal_strlit("com.apple.facetime");
        reveal_strlit("com.google.chrome");
        reveal_strlit("com.apple.safari");
        reveal_strlit("org.mozilla.firefox");
        reveal_strlit("com.microsoft.edgemac");
        reveal_with_fuel(crate::text::apart, 18);
        crate::text::lemma_lacks_text(s, "com.google.chrome"@, 3);
        crate::text::lemma_lacks_text(s, "com.apple.safari"@, 9);
        crate::text::lemma_lacks_text(s, "org.mozilla.firefox"@, 0);
        crate::text::lemma_lacks_text(s, "com.microsoft.edgemac"@, 3);
    }
    assert(crate::apps::bundle_app(s) is Some) by {
        reveal_strlit("com.apple.facetime");
        reveal_strlit("facetime");
        reveal_with_fuel(crate::text::stands_at, 9);
        crate::text::lemma_has_text(s, "facetime"@, 10);
    }
}

/// This known bundle id is an application's, and no browser's.
proof fn lemma_slack_bundle()
    ensures
        crate::apps::bundle_app(crate::text::lowercase("com.tinyspeck.slackmacgap"@)) is Some,
        !crate::apps::browser_bundle(crate::text::lowercase("com.tinyspeck.slackmacgap"@)),
{
    let s = "com.tinyspeck.slackmacgap"@;
    assert(crate::text::lowercase("com.tinyspeck.slackmacgap"@) == s) by {
        reveal_strlit("com.tinyspeck.slackmacgap");
        reveal_with_fuel(crate::text::lowers_to, 26);
        crate::text::lemma_lowercase_is("com.tinyspeck.slackmacgap"@, s);
    }
    assert(!crate::apps::browser_bundle(s)) by {
        reveal_strlit("com.tinyspeck.slackmacgap");
        reveal_strlit("com.google.chrome");
        reveal_strlit("com.apple.safari");
        reveal_strlit("org.mozilla.firefox");
        reveal_strlit("com.microsoft.edgemac");
        reveal_with_fuel(crate::text::apart, 25);
        crate::text::lemma_lacks_text(s, "com.google.chrome"@, 3);
        crate::text::lemma_lacks_text(s, "com.apple.safari"@, 3);
        crate::text::lemma_lacks_text(s, "org.mozilla.firefox"@, 0);
        crate::text::lemma_lacks_text(s, "com.microsoft.edgemac"@, 3);
    }
    assert(crate::apps::bundle_app(s) is Some) by {
        reveal_strlit("com.tinyspeck.slackmacgap");
        reveal_strlit("slackmacgap");
        reveal_with_fuel(crate::text::stands_at, 12);
        crate::text::lemma_has_text(s, "slackmacgap"@, 14);
    }
}

/// This known bundle id is an application's, and no browser's.
proof fn lemma_discord_bundle()
    ensures
        crate::apps::bundle_app(crate::text::lowercase("com.hnc.Discord"@)) is Some,
        !crate::apps::browser_bundle(crate::text::lowercase("com.hnc.Discord"@)),
{
    let s = "com.hnc.discord"@;
    assert(crate::text::lowercase("com.hnc.Discord"@) == s) by {
        reveal_strlit("com.hnc.Discord");
        reveal_strlit("com.hnc.discord");
        reveal_with_fuel(crate::text::lowers_to, 16);
        crate::text::lemma_lowercase_is("com.hnc.Discord"@, s);
    }
    assert(!crate::apps::browser_bundle(s)) by {
        reveal_strlit("com.hnc.discord");
        reveal_strlit("com.google.chrome");
        reveal_strlit("com.apple.safari");
        reveal_strlit("org.mozilla.firefox");
        reveal_strlit("com.microsoft.edgemac");
        reveal_with_fuel(crate::text::apart, 15);
        crate::text::lemma_lacks_text(s, "com.google.chrome"@, 3);
        crate::text::lemma_lacks_text(s, "com.apple.safari"@, 3);
        crate::text::lemma_lacks_text(s, "org.mozilla.firefox"@, 1);
        crate::text::lemma_lacks_text(s, "com.microsoft.edgemac"@, 3);
    }
    assert(crate::apps::bundle_app(s) is Some) by {
        reveal_strlit("com.hnc.discord");
        reveal_strlit("discord");
        reveal_with_fuel(crate::text::stands_at, 8);
        crate::text::lemma_has_text(s, "discord"@, 8);
    }
}

/// This known bundle id is a browser's, and no application's.
proof fn lemma_chrome_bundle()
    ensures
        crate::apps::bundle_app(crate::text::lowercase("com.google.chrome"@)) is None,
        crate::apps::browser_bundle(crate::text::lowercase("com.google.chrome"@)),
{
    let s = "com.google.chrome"@;
    assert(crate::text::lowercase("com.google.chrome"@) == s) by {
        reveal_strlit("com.google.chrome");
        reveal_with_fuel(crate::text::lowers_to, 18);
        crate::text::lemma_lowercase_is("com.google.chrome"@, s);
    }
    assert(crate::apps::bundle_app(s) is None) by {
        reveal_strlit("com.google.chrome");
        reveal_strlit("com.microsoft.teams");
        reveal_strlit("us.zoom.xos");
        reveal_strlit("cisco.webex");
        reveal_strlit("facetime");
        reveal_strlit("slackmacgap");
        reveal_strlit("discord");
        reveal_with_fuel(crate::text::apart, 17);
        crate::text::lemma_lacks_text(s, "com.microsoft.teams"@, 3);
        crate::text::lemma_lacks_text(s, "us.zoom.xos"@, 0);
        crate::text::lemma_lacks_text(s, "cisco.webex"@, 0);
        crate::text::lemma_lacks_text(s, "facetime"@, 0);
        crate::text::lemma_lacks_text(s, "slackmacgap"@, 0);
        crate::text::lemma_lacks_text(s, "discord"@, 0);
    }
    assert(crate::apps::browser_bundle(s)) by {
        crate::text::lemma_has_itself(s);
    }
}

/// This known bundle id is a browser's, and no application's.
proof fn lemma_safari_bundle()
    ensures
        crate::apps::bundle_app(crate::text::lowercase("com.apple.Safari"@)) is None,
        crate::apps::browser_bundle(crate::text::lowercase("com.apple.Safari"@)),
{
    let s = "com.apple.safari"@;
    assert(crate::text::lowercase("com.apple.Safari"@) == s) by {
        reveal_strlit("com.apple.Safari");
        reveal_strlit("com.apple.safari");
        reveal_with_fuel(crate::text::lowers_to, 17);
        crate::text::lemma_lowercase_is("com.apple.Safari"@, s);
    }
    assert(crate::apps::bundle_app(s) is None) by {
        reveal_strlit("com.apple.safari");
        reveal_strlit("com.microsoft.teams");
        reveal_strlit("us.zoom.xos");
        reveal_strlit("cisco.webex");
        reveal_strlit("facetime");
        reveal_strlit("slackmacgap");
        reveal_strlit("discord");
        reveal_with_fuel(crate::text::apart, 16);
        crate::text::lemma_lacks_text(s, "com.microsoft.teams"@, 3);
        crate::text::lemma_lacks_text(s, "us.zoom.xos"@, 0);
        crate::text::lemma_lacks_text(s, "cisco.webex"@, 0);
        crate::text::lemma_lacks_text(s, "facetime"@, 1);
        crate::text::lemma_lacks_text(s, "slackmacgap"@, 0);
        crate::text::lemma_lacks_text(s, "discord"@, 0);
    }
    assert(crate::apps::browser_bundle(s)) by {
        crate::text::lemma_has_itself(s);
    }
}

/// This known bundle id is a browser's, and no application's.
proof fn lemma_firefox_bundle()
    ensures
        crate::apps::bundle_app(crate::text::lowercase("org.mozilla.firefox"@)) is None,
        crate::apps::browser_bundle(crate::text::lowercase("org.mozilla.firefox"@)),
{
    let s = "org.mozilla.firefox"@;
    assert(crate::text::lowercase("org.mozilla.firefox"@) == s) by {
        reveal_strlit("org.mozilla.firefox");
        reveal_with_fuel(crate::text::lowers_to, 20);
        crate::text::lemma_lowercase_is("org.mozilla.firefox"@, s);
    }
    assert(crate::apps::bundle_app(s) is None) by {
        reveal_strlit("org.mozilla.firefox");
        reveal_strlit("com.microsoft.teams");
        reveal_strlit("us.zoom.xos");
        reveal_strlit("cisco.webex");
        reveal_strlit("facetime");
        reveal_strlit("slackmacgap");
        reveal_strlit("discord");
        reveal_with_fuel(crate::text::apart, 19);
        crate::text::lemma_lacks_text(s, "com.microsoft.teams"@, 0);
        crate::text::lemma_lacks_text(s, "us.zoom.xos"@, 0);
        crate::text::lemma_lacks_text(s, "cisco.webex"@, 0);
        crate::text::lemma_lacks_text(s, "facetime"@, 0);
        crate::text::lemma_lacks_text(s, "slackmacgap"@, 0);
        crate::text::lemma_lacks_text(s, "discord"@, 0);
    }
    assert(crate::apps::browser_bundle(s)) by {
        crate::text::lemma_has_itself(s);
    }
}

/// This known bundle id is a browser's, and no application's.
proof fn lemma_edge_bundle()
    ensures
        crate::apps::bundle_app(crate::text::lowercase("com.microsoft.edgemac"@)) is None,
        crate::apps::browser_bundle(crate::text::lowercase("com.microsoft.edgemac"@)),
{
    let s = "com.microsoft.edgemac"@;
    assert(crate::text::lowercase("com.microsoft.edgemac"@) == s) by {
        reveal_strlit("com.microsoft.edgemac");
        reveal_with_fuel(crate::text::lowers_to, 22);
        crate::text::lemma_lowercase_is("com.microsoft.edgemac"@, s);
    }
    assert(crate::apps::bundle_app(s) is None) by {
        reveal_strlit("com.microsoft.edgemac");
        reveal_strlit("com.microsoft.teams");
        reveal_strlit("us.zoom.xos");
        reveal_strlit("cisco.webex");
        reveal_strlit("facetime");
        reveal_strlit("slackmacgap");
        reveal_strlit("discord");
        reveal_with_fuel(crate::text::apart, 21);
        crate::text::lemma_lacks_text(s, "com.microsoft.teams"@, 13);
        crate::text::lemma_lacks_text(s, "us.zoom.xos"@, 0);
        crate::text::lemma_lacks_text(s, "cisco.webex"@, 0);
        crate::text::lemma_lacks_text(s, "facetime"@, 0);
        crate::text::lemma_lacks_text(s, "slackmacgap"@, 0);
        crate::text::lemma_lacks_text(s, "discord"@, 0);
    }
    assert(crate::apps::browser_bundle(s)) by {
        crate::text::lemma_has_itself(s);
    }
}

/// A window owner is its own window owner.
pub proof fn law_window_owner_is_kept(app: Seq<char>)
    ensures
        crate::apps::window_owner(crate::apps::window_owner(app)) == crate::apps::window_owner(app),
{
    lemma_teams_owner();
    lemma_zoom_owner();
    lemma_webex_owner();
    lemma_slack_owner();
    lemma_chrome_owner();
    lemma_safari_owner();
    lemma_firefox_owner();
}

/// The window owner is the application itself unless its name has one of the known
/// parts in it, letter case set aside.
pub proof fn law_unknown_app_owns_its_windows(app: Seq<char>)
    requires
        ({
            let lower = crate::text::lowercase(app);
            &&& !crate::text::has_text(lower, "teams"@)
            &&& !crate::text::has_text(lower, "zoom"@)
            &&& !crate::text::has_text(lower, "webex"@)
            &&& !crate::text::has_text(lower, "slack"@)
            &&& !crate::text::has_text(lower, "google meet"@)
            &&& !crate::text::has_text(lower, "chrome"@)
            &&& !crate::text::has_text(lower, "safari"@)
            &&& !crate::text::has_text(lower, "firefox"@)
        }),
    ensures
        crate::apps::window_owner(app) == app,
{
}

/// The window owner `Microsoft Teams` is its own.
proof fn lemma_teams_owner()
    ensures
        crate::apps::window_owner("Microsoft Teams"@) == "Microsoft Teams"@,
{
    let s = "microsoft teams"@;
    assert(crate::text::lowercase("Microsoft Teams"@) == s) by {
        reveal_strlit("Microsoft Teams");
        reveal_strlit("microsoft teams");
        reveal_with_fuel(crate::text::lowers_to, 16);
        crate::text::lemma_lowercase_is("Microsoft Teams"@, s);
    }
    assert(crate::text::has_text(s, "teams"@)) by {
        reveal_strlit("microsoft teams");
        reveal_strlit("teams");
        reveal_with_fuel(crate::text::stands_at, 6);
        crate::text::lemma_has_text(s, "teams"@, 10);
    }
}

/// The window owner `zoom.us` is its own.
proof fn lemma_zoom_owner()
    ensures
        crate::apps::window_owner("zoom.us"@) == "zoom.us"@,
{
    let s = "zoom.us"@;
    assert(crate::text::lowercase("zoom.us"@) == s) by {
        reveal_strlit("zoom.us");
        reveal_with_fuel(crate::text::lowers_to, 8);
        crate::text::lemma_lowercase_is("zoom.us"@, s);
    }
    assert(!crate::text::has_text(s, "teams"@)) by {
        reveal_strlit("zoom.us");
        reveal_strlit("teams");
        reveal_with_fuel(crate::text::apart, 7);
        crate::text::lemma_lacks_text(s, "teams"@, 0);
    }
    assert(crate::text::has_text(s, "zoom"@)) by {
        reveal_strlit("zoom.us");
        reveal_strlit("zoom");
        reveal_with_fuel(crate::text::stands_at, 5);
        crate::text::lemma_has_text(s, "zoom"@, 0);
    }
}

/// The window owner `Webex` is its own.
proof fn lemma_webex_owner()
    ensures
        crate::apps::window_owner("Webex"@) == "Webex"@,
{
    let s = "webex"@;
    assert(crate::text::lowercase("Webex"@) == s) by {
        reveal_strlit("Webex");
        reveal_strlit("webex");
        reveal_with_fuel(crate::text::lowers_to, 6);
        crate::text::lemma_lowercase_is("Webex"@, s);
    }
    assert(!crate::text::has_text(s, "teams"@)
        && !crate::text::has_text(s, "zoom"@)) by {
        reveal_strlit("webex");
        reveal_strlit("teams");
        reveal_strlit("zoom");
        reveal_with_fuel(crate::text::apart, 5);
        crate::text::lemma_lacks_text(s, "teams"@, 0);
        crate::text::lemma_lacks_text(s, "zoom"@, 0);
    }
    assert(crate::text::has_text(s, "webex"@)) by {
        crate::text::lemma_has_itself(s);
    }
}

/// The window owner `Slack` is its own.
proof fn lemma_slack_owner()
    ensures
        crate::apps::window_owner("Slack"@) == "Slack"@,
{
    let s = "slack"@;
    assert(crate::text::lowercase("Slack"@) == s) by {
        reveal_strlit("Slack");
        reveal_strlit("slack");
        reveal_with_fuel(crate::text::lowers_to, 6);
        crate::text::lemma_lowercase_is("Slack"@, s);
    }
    assert(!crate::text::has_text(s, "teams"@)
        && !crate::text::has_text(s, "zoom"@)
        && !crate::text::has_text(s, "webex"@)) by {
        reveal_strlit("slack");
        reveal_strlit("teams");
        reveal_strlit("zoom");
        reveal_strlit("webex");
        reveal_with_fuel(crate::text::apart, 5);
        crate::text::lemma_lacks_text(s, "teams"@, 0);
        crate::text::lemma_lacks_text(s, "zoom"@, 0);
        crate::text::lemma_lacks_text(s, "webex"@, 0);
    }
    assert(crate::text::has_text(s, "slack"@)) by {
        crate::text::lemma_has_itself(s);
    }
}

/// The window owner `Google Chrome` is its own.
proof fn lemma_chrome_owner()
    ensures
        crate::apps::window_owner("Google Chrome"@) == "Google Chrome"@,
{
    let s = "google chrome"@;
    assert(crate::text::lowercase("Google Chrome"@) == s) by {
        reveal_strlit("Google Chrome");
        reveal_strlit("google chrome");
        reveal_with_fuel(crate::text::lowers_to, 14);
        crate::text::lemma_lowercase_is("Google Chrome"@, s);
    }
    assert(!crate::text::has_text(s, "teams"@)
        && !crate::text::has_text(s, "zoom"@)
        && !crate::text::has_text(s, "webex"@)
        && !crate::text::has_text(s, "slack"@)
        && !crate::text::has_text(s, "google meet"@)) by {
        reveal_strlit("google chrome");
        reveal_strlit("teams");
        reveal_strlit("zoom");
        reveal_strlit("webex");
        reveal_strlit("slack");
        reveal_strlit("google meet");
        reveal_with_fuel(crate::text::apart, 13);
        crate::text::lemma_lacks_text(s, "teams"@, 0);
        crate::text::lemma_lacks_text(s, "zoom"@, 0);
        crate::text::lemma_lacks_text(s, "webex"@, 0);
        crate::text::lemma_lacks_text(s, "slack"@, 0);
        crate::text::lemma_lacks_text(s, "google meet"@, 6);
    }
    assert(crate::text::has_text(s, "chrome"@)) by {
        reveal_strlit("google chrome");
        reveal_strlit("chrome");
        reveal_with_fuel(crate::text::stands_at, 7);
        crate::text::lemma_has_text(s, "chrome"@, 7);
    }
}

/// The window owner `Safari` is its own.
proof fn lemma_safari_owner()
    ensures
        crate::apps::window_owner("Safari"@) == "Safari"@,
{
    let s = "safari"@;
    assert(crate::text::lowercase("Safari"@) == s) by {
        reveal_strlit("Safari");
        reveal_strlit("safari");
        reveal_with_fuel(crate::text::lowers_to, 7);
        crate::text::lemma_lowercase_is("Safari"@, s);
    }
    assert(!crate::text::has_text(s, "teams"@)
        && !crate::text::has_text(s, "zoom"@)
        && !crate::text::has_text(s, "webex"@)
        && !crate::text::has_text(s, "slack"@)
        && !crate::text::has_text(s, "google meet"@)
        && !crate::text::has_text(s, "chrome"@)) by {
        reveal_strlit("safari");
        reveal_strlit("teams");
        reveal_strlit("zoom");
        reveal_strlit("webex");
        reveal_strlit("slack");
        reveal_strlit("google meet");
        reveal_strlit("chrome");
        reveal_with_fuel(crate::text::apart, 6);
        crate::text::lemma_lacks_text(s, "teams"@, 0);
        crate::text::lemma_lacks_text(s, "zoom"@, 0);
        crate::text::lemma_lacks_text(s, "webex"@, 0);
        crate::text::lemma_lacks_text(s, "slack"@, 0);
        crate::text::lemma_lacks_text(s, "google meet"@, 0);
        crate::text::lemma_lacks_text(s, "chrome"@, 0);
    }
    assert(crate::text::has_text(s, "safari"@)) by {
        crate::text::lemma_has_itself(s);
    }
}

/// The window owner `Firefox` is its own.
proof fn lemma_firefox_owner()
    ensures
        crate::apps::window_owner("Firefox"@) == "Firefox"@,
{
    let s = "firefox"@;
    assert(crate::text::lowercase("Firefox"@) == s) by {
        reveal_strlit("Firefox");
        reveal_strlit("firefox");
        reveal_with_fuel(crate::text::lowers_to, 8);
        crate::text::lemma_lowercase_is("Firefox"@, s);
    }
    assert(!crate::text::has_text(s, "teams"@)
        && !crate::text::has_text(s, "zoom"@)
        && !crate::text::has_text(s, "webex"@)
        && !crate::text::has_text(s, "slack"@)
        && !crate::text::has_text(s, "google meet"@)
        && !crate::text::has_text(s, "chrome"@)
        && !crate::text::has_text(s, "safari"@)) by {
        reveal_strlit("firefox");
        reveal_strlit("teams");
        reveal_strlit("zoom");
        reveal_strlit("webex");
        reveal_strlit("slack");
        reveal_strlit("google meet");
        reveal_strlit("chrome");
        reveal_strlit("safari");
        reveal_with_fuel(crate::text::apart, 7);
        crate::text::lemma_lacks_text(s, "teams"@, 0);
        crate::text::lemma_lacks_text(s, "zoom"@, 0);
        crate::text::lemma_lacks_text(s, "webex"@, 0);
        crate::text::lemma_lacks_text(s, "slack"@, 0);
        crate::text::lemma_lacks_text(s, "google meet"@, 0);
        crate::text::lemma_lacks_text(s, "chrome"@, 0);
        crate::text::lemma_lacks_text(s, "safari"@, 0);
    }
    assert(crate::text::has_text(s, "firefox"@)) by {
        crate::text::lemma_has_itself(s);
    }
}

/// Each known bundle id of an application that runs by itself belongs to that application.
pub proof fn law_known_bundles_have_their_names()
    ensures
        crate::apps::bundle_app(crate::text::lowercase("com.microsoft.teams2"@)) == Some("Microsoft Teams"@),
        crate::apps::bundle_app(crate::text::lowercase("com.microsoft.teams"@)) == Some("Microsoft Teams"@),
        crate::apps::bundle_app(crate::text::lowercase("us.zoom.xos"@)) == Some("Zoom"@),
        crate::apps::bundle_app(crate::text::lowercase("com.cisco.webexmeetingsapp"@)) == Some("Cisco Webex"@),
        crate::apps::bundle_app(crate::text::lowercase("com.apple.FaceTime"@)) == Some("FaceTime"@),
        crate::apps::bundle_app(crate::text::lowercase("com.tinyspeck.slackmacgap"@)) == Some("Slack"@),
        crate::apps::bundle_app(crate::text::lowercase("com.hnc.Discord"@)) == Some("Discord"@),
{
    lemma_teams2_name();
    lemma_teams_name();
    lemma_zoom_name();
    lemma_webex_name();
    lemma_facetime_name();
    lemma_slack_name();
    lemma_discord_name();
}

/// The application of this bundle id.
proof fn lemma_teams2_name()
    ensures
        crate::apps::bundle_app(crate::text::lowercase("com.microsoft.teams2"@)) == Some("Microsoft Teams"@),
{
    let s = "com.microsoft.teams2"@;
    assert(crate::text::lowercase("com.microsoft.teams2"@) == s) by {
        reveal_strlit("com.microsoft.teams2");
        reveal_with_fuel(crate::text::lowers_to, 21);
        crate::text::lemma_lowercase_is("com.microsoft.teams2"@, s);
    }
    assert(crate::apps::bundle_app(s) == Some("Microsoft Teams"@)) by {
        reveal_strlit("com.microsoft.teams2");
        reveal_strlit("com.microsoft.teams");
        reveal_with_fuel(crate::text::stands_at, 20);
        crate::text::lemma_has_text(s, "com.microsoft.teams"@, 0);
    }
}

/// The application of this bundle id.
proof fn lemma_teams_name()
    ensures
        crate::apps::bundle_app(crate::text::lowercase("com.microsoft.teams"@)) == Some("Microsoft Teams"@),
{
    let s = "com.microsoft.teams"@;
    assert(crate::text::lowercase("com.microsoft.teams"@) == s) by {
        reveal_strlit("com.microsoft.teams");
        reveal_with_fuel(crate::text::lowers_to, 20);
        crate::text::lemma_lowercase_is("com.microsoft.teams"@, s);
    }
    assert(crate::apps::bundle_app(s) == Some("Microsoft Teams"@)) by {
        crate::text::lemma_has_itself(s);
    }
}

/// The application of this bundle id.
proof fn lemma_zoom_name()
    ensures
        crate::apps::bundle_app(crate::text::lowercase("us.zoom.xos"@)) == Some("Zoom"@),
{
    let s = "us.zoom.xos"@;
    assert(crate::text::lowercase("us.zoom.xos"@) == s) by {
        reveal_strlit("us.zoom.xos");
        reveal_with_fuel(crate::text::lowers_to, 12);
        crate::text::lemma_lowercase_is("us.zoom.xos"@, s);
    }
    assert(!crate::text::has_text(s, "com.microsoft.teams"@)) by {
        reveal_strlit("us.zoom.xos");
        reveal_strlit("com.microsoft.teams");
        reveal_with_fuel(crate::text::apart, 11);
        crate::text::lemma_lacks_text(s, "com.microsoft.teams"@, 0);
    }
    assert(crate::apps::bundle_app(s) == Some("Zoom"@)) by {
        crate::text::lemma_has_itself(s);
    }
}

/// The application of this bundle id.
proof fn lemma_webex_name()
    ensures
        crate::apps::bundle_app(crate::text::lowercase("com.cisco.webexmeetingsapp"@)) == Some("Cisco Webex"@),
{
    let s = "com.cisco.webexmeetingsapp"@;
    assert(crate::text::lowercase("com.cisco.webexmeetingsapp"@) == s) by {
        reveal_strlit("com.cisco.webexmeetingsapp");
        reveal_with_fuel(crate::text::lowers_to, 27);
        crate::text::lemma_lowercase_is("com.cisco.webexmeetingsapp"@, s);
    }
    assert(!crate::text::has_text(s, "com.microsoft.teams"@)
        && !crate::text::has_text(s, "us.zoom.xos"@)) by {
        reveal_strlit("com.cisco.webexmeetingsapp");
        reveal_strlit("com.microsoft.teams");
        reveal_strlit("us.zoom.xos");
        reveal_with_fuel(crate::text::apart, 26);
        crate::text::lemma_lacks_text(s, "com.microsoft.teams"@, 3);
        crate::text::lemma_lacks_text(s, "us.zoom.xos"@, 0);
    }
    assert(crate::apps::bundle_app(s) == Some("Cisco Webex"@)) by {
        reveal_strlit("com.cisco.webexmeetingsapp");
        reveal_strlit("cisco.webex");
        reveal_with_fuel(crate::text::stands_at, 12);
        crate::text::lemma_has_text(s, "cisco.webex"@, 4);
    }
}

/// The application of this bundle id.
proof fn lemma_facetime_name()
    ensures
        crate::apps::bundle_app(crate::text::lowercase("com.apple.FaceTime"@)) == Some("FaceTime"@),
{
    let s = "com.apple.facetime"@;
    assert(crate::text::lowercase("com.apple.FaceTime"@) == s) by {
        reveal_strlit("com.apple.FaceTime");
        reveal_strlit("com.apple.facetime");
        reveal_with_fuel(crate::text::lowers_to, 19);
        crate::text::lemma_lowercase_is("com.apple.FaceTime"@, s);
    }
    assert(!crate::text::has_text(s, "com.microsoft.teams"@)
        && !crate::text::has_text(s, "us.zoom.xos"@)
        && !crate::text::has_text(s, "cisco.webex"@)) by {
        reveal_strlit("com.apple.facetime");
        reveal_strlit("com.microsoft.teams");
        reveal_strlit("us.zoom.xos");
        reveal_strlit("cisco.webex");
        reveal_with_fuel(crate::text::apart, 18);
        crate::text::lemma_lacks_text(s, "com.microsoft.teams"@, 3);
        crate::text::lemma_lacks_text(s, "us.zoom.xos"@, 0);
        crate::text::lemma_lacks_text(s, "cisco.webex"@, 0);
    }
    assert(crate::apps::bundle_app(s) == Some("FaceTime"@)) by {
        reveal_strlit("com.apple.facetime");
        reveal_strlit("facetime");
        reveal_with_fuel(crate::text::stands_at, 9);
        crate::text::lemma_has_text(s, "facetime"@, 10);
    }
}

/// The application of this bundle id.
proof fn lemma_slack_name()
    ensures
        crate::apps::bundle_app(crate::text::lowercase("com.tinyspeck.slackmacgap"@)) == Some("Slack"@),
{
    let s = "com.tinyspeck.slackmacgap"@;
    assert(crate::text::lowercase("com.tinyspeck.slackmacgap"@) == s) by {
        reveal_strlit("com.tinyspeck.slackmacgap");
        reveal_with_fuel(crate::text::lowers_to, 26);
        crate::text::lemma_lowercase_is("com.tinyspeck.slackmacgap"@, s);
    }
    assert(!crate::text::has_text(s, "com.microsoft.teams"@)
        && !crate::text::has_text(s, "us.zoom.xos"@)
        && !crate::text::has_text(s, "cisco.webex"@)
        && !crate::text::has_text(s, "facetime"@)) by {
        reveal_strlit("com.tinyspeck.slackmacgap");
        reveal_strlit("com.microsoft.teams");
        reveal_strlit("us.zoom.xos");
        reveal_strlit("cisco.webex");
        reveal_strlit("facetime");
        reveal_with_fuel(crate::text::apart, 25);
        crate::text::lemma_lacks_text(s, "com.microsoft.teams"@, 3);
        crate::text::lemma_lacks_text(s, "us.zoom.xos"@, 0);
        crate::text::lemma_lacks_text(s, "cisco.webex"@, 0);
        crate::text::lemma_lacks_text(s, "facetime"@, 0);
    }
    assert(crate::apps::bundle_app(s) == Some("Slack"@)) by {
        reveal_strlit("com.tinyspeck.slackmacgap");
        reveal_strlit("slackmacgap");
        reveal_with_fuel(crate::text::stands_at, 12);
        crate::text::lemma_has_text(s, "slackmacgap"@, 14);
    }
}

/// The application of this bundle id.
proof fn lemma_discord_name()
    ensures
        crate::apps::bundle_app(crate::text::lowercase("com.hnc.Discord"@)) == Some("Discord"@),
{
    let s = "com.hnc.discord"@;
    assert(crate::text::lowercase("com.hnc.Discord"@) == s) by {
        reveal_strlit("com.hnc.Discord");
        reveal_strlit("com.hnc.discord");
        reveal_with_fuel(crate::text::lowers_to, 16);
        crate::text::lemma_lowercase_is("com.hnc.Discord"@, s);
    }
    assert(!crate::text::has_text(s, "com.microsoft.teams"@)
        && !crate::text::has_text(s, "us.zoom.xos"@)
        && !crate::text::has_text(s, "cisco.webex"@)
        && !crate::text::has_text(s, "facetime"@)
        && !crate::text::has_text(s, "slackmacgap"@)) by {
        reveal_strlit("com.hnc.discord");
        reveal_strlit("com.microsoft.teams");
        reveal_strlit("us.zoom.xos");
        reveal_strlit("cisco.webex");
        reveal_strlit("facetime");
        reveal_strlit("slackmacgap");
        reveal_with_fuel(crate::text::apart, 15);
        crate::text::lemma_lacks_text(s, "com.microsoft.teams"@, 3);
        crate::text::lemma_lacks_text(s, "us.zoom.xos"@, 0);
        crate::text::lemma_lacks_text(s, "cisco.webex"@, 0);
        crate::text::lemma_lacks_text(s, "facetime"@, 0);
        crate::text::lemma_lacks_text(s, "slackmacgap"@, 0);
    }
    assert(crate::apps::bundle_app(s) == Some("Discord"@)) by {
        reveal_strlit("com.hnc.discord");
        reveal_strlit("discord");
        reveal_with_fuel(crate::text::stands_at, 8);
        crate::text::lemma_has_text(s, "discord"@, 8);
    }
}

/// The windows of each known browser belong to that browser.
pub proof fn law_known_browsers_own_their_windows()
    ensures
        crate::apps::bundle_owner("com.google.chrome"@) == "Google Chrome"@,
        crate::apps::bundle_owner("com.apple.Safari"@) == "Safari"@,
        crate::apps::bundle_owner("org.mozilla.firefox"@) == "Firefox"@,
        crate::apps::bundle_owner("com.microsoft.edgemac"@) == "Microsoft Edge"@,
{
    lemma_chrome_windows();
    lemma_safari_windows();
    lemma_firefox_windows();
    lemma_edge_windows();
}

/// The windows of this browser.
proof fn lemma_chrome_windows()
    ensures
        crate::apps::bundle_owner("com.google.chrome"@) == "Google Chrome"@,
{
    let s = "com.google.chrome"@;
    assert(crate::text::lowercase("com.google.chrome"@) == s) by {
        reveal_strlit("com.google.chrome");
        reveal_with_fuel(crate::text::lowers_to, 18);
        crate::text::lemma_lowercase_is("com.google.chrome"@, s);
    }
    assert(crate::apps::browser_owner(s) == Some("Google Chrome"@)) by {
        crate::text::lemma_has_itself(s);
    }
}

/// The windows of this browser.
proof fn lemma_safari_windows()
    ensures
        crate::apps::bundle_owner("com.apple.Safari"@) == "Safari"@,
{
    let s = "com.apple.safari"@;
    assert(crate::text::lowercase("com.apple.Safari"@) == s) by {
        reveal_strlit("com.apple.Safari");
        reveal_strlit("com.apple.safari");
        reveal_with_fuel(crate::text::lowers_to, 17);
        crate::text::lemma_lowercase_is("com.apple.Safari"@, s);
    }
    assert(!crate::text::has_text(s, "com.google.chrome"@)) by {
        reveal_strlit("com.apple.safari");
        reveal_strlit("com.google.chrome");
        reveal_with_fuel(crate::text::apart, 16);
        crate::text::lemma_lacks_text(s, "com.google.chrome"@, 3);
    }
    assert(crate::apps::browser_owner(s) == Some("Safari"@)) by {
        crate::text::lemma_has_itself(s);
    }
}

/// The windows of this browser.
proof fn lemma_firefox_windows()
    ensures
        crate::apps::bundle_owner("org.mozilla.firefox"@) == "Firefox"@,
{
    let s = "org.mozilla.firefox"@;
    assert(crate::text::lowercase("org.mozilla.firefox"@) == s) by {
        reveal_strlit("org.mozilla.firefox");
        reveal_with_fuel(crate::text::lowers_to, 20);
        crate::text::lemma_lowercase_is("org.mozilla.firefox"@, s);
    }
    assert(!crate::text::has_text(s, "com.google.chrome"@)
        && !crate::text::has_text(s, "com.apple.safari"@)) by {
        reveal_strlit("org.mozilla.firefox");
        reveal_strlit("com.google.chrome");
        reveal_strlit("com.apple.safari");
        reveal_with_fuel(crate::text::apart, 19);
        crate::text::lemma_lacks_text(s, "com.google.chrome"@, 0);
        crate::text::lemma_lacks_text(s, "com.apple.safari"@, 0);
    }
    assert(crate::apps::browser_owner(s) == Some("Firefox"@)) by {
        reveal_strlit("org.mozilla.firefox");
        reveal_strlit("org.mozilla");
        reveal_with_fuel(crate::text::stands_at, 12);
        crate::text::lemma_has_text(s, "org.mozilla"@, 0);
    }
}

/// The windows of this browser.
proof fn lemma_edge_windows()
    ensures
        crate::apps::bundle_owner("com.microsoft.edgemac"@) == "Microsoft Edge"@,
{
    let s = "com.microsoft.edgemac"@;
    assert(crate::text::lowercase("com.microsoft.edgemac"@) == s) by {
        reveal_strlit("com.microsoft.edgemac");
        reveal_with_fuel(crate::text::lowers_to, 22);
        crate::text::lemma_lowercase_is("com.microsoft.edgemac"@, s);
    }
    assert(!crate::text::has_text(s, "com.google.chrome"@)
        && !crate::text::has_text(s, "com.apple.safari"@)
        && !crate::text::has_text(s, "org.mozilla"@)) by {
        reveal_strlit("com.microsoft.edgemac");
        reveal_strlit("com.google.chrome");
        reveal_strlit("com.apple.safari");
        reveal_strlit("org.mozilla");
        reveal_with_fuel(crate::text::apart, 21);
        crate::text::lemma_lacks_text(s, "com.google.chrome"@, 3);
        crate::text::lemma_lacks_text(s, "com.apple.safari"@, 3);
        crate::text::lemma_lacks_text(s, "org.mozilla"@, 0);
    }
    assert(crate::apps::browser_owner(s) == Some("Microsoft Edge"@)) by {
        reveal_strlit("com.microsoft.edgemac");
        reveal_strlit("com.microsoft.edge");
        reveal_with_fuel(crate::text::stands_at, 19);
        crate::text::lemma_has_text(s, "com.microsoft.edge"@, 0);
    }
}


/// The known browsers are browsers.
pub proof fn lemma_browsers_are_browsers()
    ensures
        crate::apps::browser_bundle(crate::text::lowercase("com.google.chrome"@)),
        crate::apps::browser_bundle(crate::text::lowercase("com.apple.Safari"@)),
        crate::apps::browser_bundle(crate::text::lowercase("org.mozilla.firefox"@)),
        crate::apps::browser_bundle(crate::text::lowercase("com.microsoft.edgemac"@)),
{
    lemma_chrome_bundle();
    lemma_safari_bundle();
    lemma_firefox_bundle();
    lemma_edge_bundle();
}

} // verus!
