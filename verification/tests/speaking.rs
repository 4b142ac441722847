//! Participants and who of them is speaking.
use side_huddle::speaker::{
    changed_pixels, is_saturated, is_speaking, ordered_names, sample_border, Area, Counts, Image,
    PlacedTile, SpeakerProbe, SpeakerWatcher, SPEAKER_POLL_MS,
};
use side_huddle::text::is_whitespace;
use side_huddle::tiles::{
    ax_find_tiles, name_end, strip_ax_state_suffixes, AxNode, Frame, Tile, MIN_TILE_KEY,
};

fn node(role: &str, children: Vec<AxNode>) -> AxNode {
    AxNode {
        role: Some(role.to_string()),
        value: None,
        title: None,
        description: None,
        frame: None,
        children,
    }
}

fn text(value: &str) -> AxNode {
    AxNode { value: Some(value.to_string()), ..node("AXStaticText", vec![]) }
}

fn frame(id: usize, width: f64, height: f64) -> Option<Frame> {
    Some(Frame { id, width: width.to_bits(), height: height.to_bits() })
}

fn item(id: usize, title: &str, children: Vec<AxNode>) -> AxNode {
    AxNode {
        title: Some(title.to_string()),
        frame: frame(id, 100.0, 50.0),
        ..node("AXMenuItem", children)
    }
}

fn tile(name: &str, frame: usize) -> Tile {
    Tile { name: name.to_string(), frame }
}

#[test]
fn states_are_stripped_from_names() {
    assert_eq!(strip_ax_state_suffixes("Ann Lee, muted, speaking"), "Ann Lee");
    assert_eq!(strip_ax_state_suffixes(" Ann, Context menu"), "Ann");
    assert_eq!(strip_ax_state_suffixes("\u{2003}Ann \t, unmuted"), "Ann");
    assert_eq!(strip_ax_state_suffixes("Ann, not speaking"), "Ann");
    assert_eq!(strip_ax_state_suffixes("Ann, PhD"), "Ann, PhD");
    assert_eq!(strip_ax_state_suffixes(", muted"), "");
    assert_eq!(strip_ax_state_suffixes(""), "");
    assert_eq!(name_end("Ängstrom, muted"), 8);
    assert_eq!(name_end("Ann"), 3);
}

#[test]
fn stripping_twice_is_stripping_once() {
    for name in ["Ann, muted", " Ann , speaking, muted", "Ann, PhD ", ", muted", ""] {
        let once = strip_ax_state_suffixes(name);
        assert_eq!(strip_ax_state_suffixes(&once), once);
    }
}

#[test]
fn whitespace_is_that_of_unicode() {
    for c in '\0'..=char::MAX {
        assert_eq!(is_whitespace(c), c.is_whitespace());
    }
}

#[test]
fn tiles_are_menu_items_with_names() {
    assert_eq!(MIN_TILE_KEY, 10f64.to_bits());
    let tree = node(
        "AXApplication",
        vec![
            node(
                "AXGroup",
                vec![
                    item(1, "Ann, muted", vec![]),
                    item(2, "ignored", vec![node("AXGroup", vec![text(""), text("Bo")])]),
                ],
            ),
            item(3, "", vec![]),
            AxNode { frame: None, ..item(4, "Cy", vec![]) },
            AxNode { frame: frame(5, 10.0, 50.0), ..item(5, "Di", vec![]) },
            AxNode {
                description: Some("Eve, speaking".to_string()),
                ..item(6, "", vec![])
            },
            item(7, "Flo", vec![item(8, "inside", vec![])]),
        ],
    );
    assert_eq!(
        ax_find_tiles(&tree),
        vec![tile("Ann", 1), tile("Bo", 2), tile("Eve", 6), tile("Flo", 7)]
    );
}

#[test]
fn tiles_are_looked_for_forty_levels_deep() {
    let mut tree = item(1, "Ann", vec![]);
    for _ in 0..39 {
        tree = node("AXGroup", vec![tree]);
    }
    assert_eq!(ax_find_tiles(&tree).len(), 1);
    let deeper = node("AXGroup", vec![tree]);
    assert_eq!(ax_find_tiles(&deeper).len(), 0);
}

#[test]
fn names_are_looked_for_eight_levels_deep() {
    let mut name = text("Bo");
    for _ in 0..7 {
        name = node("AXGroup", vec![name]);
    }
    let tree = item(1, "Ann", vec![name]);
    assert_eq!(ax_find_tiles(&tree), vec![tile("Bo", 1)]);
    let mut name = text("Bo");
    for _ in 0..8 {
        name = node("AXGroup", vec![name]);
    }
    let tree = item(1, "Ann", vec![name]);
    assert_eq!(ax_find_tiles(&tree), vec![tile("Ann", 1)]);
}

#[test]
fn vivid_colours() {
    assert!(is_saturated(100, 64, 70));
    assert!(!is_saturated(100, 65, 70));
    assert!(is_saturated(41, 0, 0));
    assert!(!is_saturated(40, 0, 0));
    assert!(!is_saturated(255, 255, 255));
    assert!(is_saturated(0, 0, 255));
}

/// A grey image.
fn grey(width: u32, height: u32) -> Image {
    Image {
        width,
        height,
        pixels: vec![128; (width * height * 4) as usize],
    }
}

fn paint(image: &mut Image, x: u32, y: u32) {
    let o = ((y * image.width + x) * 4) as usize;
    image.pixels[o] = 0;
    image.pixels[o + 1] = 255;
    image.pixels[o + 2] = 0;
}

fn area(left: i32, top: i32, right: i32, bottom: i32) -> Area {
    Area { left, top, right, bottom }
}

#[test]
fn looks_at_a_tile() {
    let image = grey(40, 40);
    let (border, whole) = sample_border(&image, area(0, 0, 40, 40));
    // Eight rings of four sides of twenty looks each.
    assert_eq!(border, Counts { coloured: 0, looked: 640 });
    assert_eq!(whole, Counts { coloured: 0, looked: 100 });
    let (border, whole) = sample_border(&image, area(-10, -10, 400, 400));
    assert_eq!((border.looked, whole.looked), (640, 100));
    let none = (Counts { coloured: 0, looked: 0 }, Counts { coloured: 0, looked: 0 });
    assert_eq!(sample_border(&image, area(50, 0, 60, 40)), none);
    assert_eq!(sample_border(&image, area(5, 5, 5, 20)), none);
    assert_eq!(sample_border(&image, area(-10, -10, -5, -5)), none);
    let (border, _) = sample_border(&image, area(30, 30, 39, 39));
    // Insets of up to seven pixels stay within the image.
    assert_eq!(border.looked, 8 * 4 * 5);
}

#[test]
fn coloured_pixels_count() {
    let mut image = grey(40, 40);
    paint(&mut image, 20, 20);
    let (border, whole) = sample_border(&image, area(0, 0, 40, 40));
    assert_eq!(border.coloured, 0);
    assert_eq!(whole.coloured, 1);
    paint(&mut image, 0, 0);
    let (border, whole) = sample_border(&image, area(0, 0, 40, 40));
    // The corner is in the top row and in the left column of the outermost ring.
    assert_eq!(border.coloured, 2);
    assert_eq!(whole.coloured, 2);
}

#[test]
fn more_than_two_percent_is_speaking() {
    let quiet = Counts { coloured: 2, looked: 100 };
    let loud = Counts { coloured: 3, looked: 100 };
    let none = Counts { coloured: 0, looked: 0 };
    assert!(!is_speaking(quiet, quiet, 0));
    assert!(is_speaking(loud, quiet, 0));
    assert!(is_speaking(quiet, loud, 0));
    assert!(!is_speaking(none, none, 200));
    assert!(is_speaking(none, none, 201));
    for n in 1..2000u64 {
        for coloured in [n / 50, n / 50 + 1] {
            let ratio = coloured as f64 / n as f64;
            let counts = Counts { coloured, looked: n };
            assert_eq!(is_speaking(counts, none, 0), ratio > 0.02);
        }
    }
}

#[test]
fn newly_coloured_pixels() {
    let before = grey(4, 4);
    let mut now = grey(4, 4);
    paint(&mut now, 1, 1);
    paint(&mut now, 2, 3);
    assert_eq!(changed_pixels(&now.pixels, &before.pixels), 2);
    assert_eq!(changed_pixels(&now.pixels, &now.pixels), 0);
    assert_eq!(changed_pixels(&before.pixels, &now.pixels), 0);
    assert_eq!(changed_pixels(&now.pixels, &grey(2, 2).pixels), 0);
}

#[test]
fn probing_names_the_speakers() {
    let mut image = grey(40, 20);
    for x in 0..20 {
        paint(&mut image, x, 0);
    }
    let tiles = vec![
        PlacedTile { name: "Ann".to_string(), area: area(0, 0, 19, 19) },
        PlacedTile { name: "Bo".to_string(), area: area(20, 0, 39, 19) },
    ];
    let mut probe = SpeakerProbe::new();
    assert_eq!(probe.probe_once(image, &tiles), vec!["Ann"]);
    assert_eq!(probe.probe_once(grey(40, 20), &tiles), Vec::<String>::new());
    let mut bright = grey(40, 20);
    for x in 0..40 {
        for y in 8..14 {
            paint(&mut bright, x, y);
        }
    }
    // 240 newly coloured pixels: a ring is appearing somewhere.
    let everywhere = vec![
        PlacedTile { name: "Ann".to_string(), area: area(0, 0, 1, 1) },
        PlacedTile { name: "Bo".to_string(), area: area(20, 0, 21, 1) },
    ];
    assert_eq!(probe.probe_once(bright.clone(), &everywhere), vec!["Ann", "Bo"]);
    assert_eq!(probe.probe_once(bright, &everywhere), Vec::<String>::new());
}

fn names(list: &[&str]) -> Vec<String> {
    list.iter().map(|s| s.to_string()).collect()
}

#[test]
fn names_are_ordered_as_strings_are() {
    let list = names(&["bo", "Ann", "Änne", "bo", "", "Anna", "\u{1F600}", "\u{FFFD}"]);
    let mut expected = list.clone();
    expected.sort();
    expected.dedup();
    assert_eq!(ordered_names(&list), expected);
}

#[test]
fn changes_of_speakers_are_reported() {
    assert_eq!(SPEAKER_POLL_MS, 100);
    let mut watcher = SpeakerWatcher::start();
    assert_eq!(watcher.observe(&names(&[])), None);
    assert_eq!(
        watcher.observe(&names(&["Bo", "Ann", "Bo"])),
        Some(names(&["Ann", "Bo"]))
    );
    assert_eq!(watcher.observe(&names(&["Ann", "Bo"])), None);
    assert_eq!(watcher.observe(&names(&["Bo"])), Some(names(&["Bo"])));
    assert_eq!(watcher.observe(&names(&[])), Some(names(&[])));
    assert_eq!(watcher.observe(&names(&[])), None);
}
