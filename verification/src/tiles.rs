//! Finding the tiles of the participants in the accessibility tree of a meeting
//! application.
use vstd::prelude::*;
use vstd::string::*;

use crate::text::{matches_at, same_text, to_chars, trim_prefix};

verus! {

/// What the description of a participant goes on with after the name.
pub const STATE_SUFFIXES: [&'static str; 5] = [
    ", muted",
    ", unmuted",
    ", speaking",
    ", not speaking",
    ", Context menu",
];

/// How deep in the tree tiles are looked for.
pub const MAX_TILE_DEPTH: usize = 40;

/// How deep below a tile its name is looked for.
pub const MAX_NAME_DEPTH: usize = 8;

/// The order key of a length of 10 points: the bit pattern of that floating-point
/// number. Tiles are larger.
pub const MIN_TILE_KEY: u64 = 0x4024_0000_0000_0000;

/// One of the state suffixes stands in `s` at position `i`.
pub open spec fn suffix_at(s: Seq<char>, i: int) -> bool {
    exists|k: int|
        0 <= k < STATE_SUFFIXES@.len() && crate::text::occurs_at(
            s,
            #[trigger] STATE_SUFFIXES@[k]@,
            i,
        )
}

/// The first position, from `i` on, at which a state suffix stands in `s`; the end
/// of `s` where there is none.
pub open spec fn cut_from(s: Seq<char>, i: int) -> int
    decreases s.len() - i,
{
    if i >= s.len() {
        s.len() as int
    } else if suffix_at(s, i) {
        i
    } else {
        cut_from(s, i + 1)
    }
}

/// The name in the description of a participant: what stands before the first
/// state suffix, without whitespace around it.
pub open spec fn stripped(s: Seq<char>) -> Seq<char> {
    crate::text::trimmed(s.take(cut_from(s, 0)))
}

/// Whether one of the state suffixes stands in `s` at position `at`.
fn is_suffix_at(s: &Vec<char>, at: usize) -> (found: bool)
    ensures
        found == suffix_at(s@, at as int),
{
    let mut k: usize = 0;
    while k < 5
        invariant
            k <= 5,
            forall|j: int|
                0 <= j < k ==> !crate::text::occurs_at(
                    s@,
                    #[trigger] STATE_SUFFIXES@[j]@,
                    at as int,
                ),
        decreases 5 - k,
    {
        let pattern: Vec<char> = to_chars(STATE_SUFFIXES[k]);
        if matches_at(s, &pattern, at) {
            return true;
        }
        k = k + 1;
    }
    false
}

/// Where the name in the description of a participant ends: at the first state
/// suffix, or at the end where there is none.
pub fn name_end(s: &str) -> (end: usize)
    ensures
        end == cut_from(s@, 0),
        end <= s@.len(),
{
    let chars: Vec<char> = to_chars(s);
    let mut i: usize = 0;
    while i < chars.len() && !is_suffix_at(&chars, i)
        invariant
            chars@ == s@,
            i <= chars@.len(),
            cut_from(s@, 0) == cut_from(s@, i as int),
        decreases chars@.len() - i,
    {
        i = i + 1;
    }
    i
}

/// The name in the description of a participant: what stands before the first
/// state suffix, without whitespace around it.
pub fn strip_ax_state_suffixes(s: &str) -> (name: String)
    ensures
        name@ == stripped(s@),
{
    let end: usize = name_end(s);
    trim_prefix(s, end)
}

/// Nothing of the state is left in the name.
pub proof fn law_name_has_no_state(s: Seq<char>, i: int)
    ensures
        !suffix_at(stripped(s), i),
{
    let n = cut_from(s, 0);
    lemma_cut(s, 0);
    let head = s.take(n);
    let (a, b) = crate::text::lemma_trimmed_is_part(head);
    if suffix_at(stripped(s), i) {
        let k = choose|k: int|
            0 <= k < STATE_SUFFIXES@.len() && crate::text::occurs_at(
                stripped(s),
                #[trigger] STATE_SUFFIXES@[k]@,
                i,
            );
        let p = STATE_SUFFIXES@[k]@;
        lemma_suffixes_not_empty(k);
        assert(stripped(s).subrange(i, i + p.len()) =~= s.subrange(a + i, a + i + p.len()));
        assert(crate::text::occurs_at(s, p, a + i));
        assert(suffix_at(s, a + i));
    }
}

/// To strip the state from a name twice is to strip it once.
pub proof fn law_stripping_twice_is_once(s: Seq<char>)
    ensures
        stripped(stripped(s)) == stripped(s),
{
    let name = stripped(s);
    lemma_cut(name, 0);
    if cut_from(name, 0) < name.len() {
        lemma_cut_at_suffix(name, 0);
        law_name_has_no_state(s, cut_from(name, 0));
    }
    assert(name.take(name.len() as int) =~= name);
    crate::text::lemma_trimmed_twice(s.take(cut_from(s, 0)));
}

/// A cut before the end is at a state suffix.
proof fn lemma_cut_at_suffix(s: Seq<char>, i: int)
    requires
        0 <= i,
        cut_from(s, i) < s.len(),
    ensures
        suffix_at(s, cut_from(s, i)),
    decreases s.len() - i,
{
    if i < s.len() && !suffix_at(s, i) {
        lemma_cut_at_suffix(s, i + 1);
    }
}

/// No state suffix stands before the cut.
proof fn lemma_cut(s: Seq<char>, i: int)
    requires
        0 <= i <= s.len(),
    ensures
        i <= cut_from(s, i) <= s.len(),
        forall|j: int| i <= j < cut_from(s, i) ==> !suffix_at(s, j),
    decreases s.len() - i,
{
    if i < s.len() && !suffix_at(s, i) {
        lemma_cut(s, i + 1);
    }
}

/// A state suffix is not empty.
proof fn lemma_suffixes_not_empty(k: int)
    requires
        0 <= k < STATE_SUFFIXES@.len(),
    ensures
        STATE_SUFFIXES@[k]@.len() > 0,
{
    reveal_strlit(", muted");
    reveal_strlit(", unmuted");
    reveal_strlit(", speaking");
    reveal_strlit(", not speaking");
    reveal_strlit(", Context menu");
}

/// Where an element stands on the screen: an id by which the host finds its
/// geometry again, and the order keys of its width and height.
#[derive(Debug, Clone, Copy, PartialEq, Eq, Structural)]
pub struct Frame {
    pub id: usize,
    pub width: u64,
    pub height: u64,
}

/// An element of the accessibility tree.
#[derive(Debug)]
pub struct AxNode {
    pub role: Option<String>,
    pub value: Option<String>,
    pub title: Option<String>,
    pub description: Option<String>,
    /// Where the element stands, if it tells its position and its size.
    pub frame: Option<Frame>,
    pub children: Vec<AxNode>,
}

/// The tile of a participant.
#[derive(Debug, Clone, PartialEq, Eq)]
pub struct Tile {
    pub name: String,
    /// The id of the frame.
    pub frame: usize,
}

/// The tile of a participant.
pub struct TileView {
    pub name: Seq<char>,
    pub frame: usize,
}

impl View for Tile {
    type V = TileView;

    open spec fn view(&self) -> TileView {
        TileView { name: self.name@, frame: self.frame }
    }
}

/// What each of a list of tiles says.
pub open spec fn tile_views(tiles: Seq<Tile>) -> Seq<TileView> {
    tiles.map_values(|t: Tile| t@)
}

/// The element has this role.
pub open spec fn has_role(node: AxNode, role: Seq<char>) -> bool {
    crate::text::opt_string(node.role) == Some(role)
}

/// The text of the element, if it is a text that is not empty.
pub open spec fn own_text(node: AxNode) -> Option<Seq<char>> {
    if has_role(node, "AXStaticText"@) && node.value is Some && node.value->0@.len() > 0 {
        Some(node.value->0@)
    } else {
        None
    }
}

/// The first text in the tree below an element that is at `depth`.
pub open spec fn text_below(node: AxNode, depth: nat) -> Option<Seq<char>>
    decreases node, 0nat,
{
    if depth > MAX_NAME_DEPTH {
        None
    } else if own_text(node) is Some {
        own_text(node)
    } else {
        text_among(node.children@, depth + 1)
    }
}

/// The first text in the trees below elements that are at `depth`.
pub open spec fn text_among(nodes: Seq<AxNode>, depth: nat) -> Option<Seq<char>>
    decreases nodes, nodes.len(),
{
    if nodes.len() == 0 {
        None
    } else {
        match text_below(nodes[0], depth) {
            Some(t) => Some(t),
            None => text_among(nodes.subrange(1, nodes.len() as int), depth),
        }
    }
}

/// The title of the element, or its description where it has no title.
pub open spec fn label(node: AxNode) -> Seq<char> {
    match node.title {
        Some(t) => if t@.len() > 0 {
            t@
        } else {
            crate::text::text_or_empty(crate::text::opt_string(node.description))
        },
        None => crate::text::text_or_empty(crate::text::opt_string(node.description)),
    }
}

/// The name of the participant whose tile the element is: the first text below it,
/// or else the name in its label.
pub open spec fn tile_name(node: AxNode) -> Seq<char> {
    match text_below(node, 0) {
        Some(t) => t,
        None => stripped(label(node)),
    }
}

/// The tile that the element is, if it has a name and is large enough.
pub open spec fn own_tile(node: AxNode) -> Seq<TileView> {
    match node.frame {
        Some(f) => if tile_name(node).len() > 0 && f.width > MIN_TILE_KEY && f.height
            > MIN_TILE_KEY {
            seq![TileView { name: tile_name(node), frame: f.id }]
        } else {
            Seq::empty()
        },
        None => Seq::empty(),
    }
}

/// The tiles in the tree below an element that is at `depth`. Tiles are menu
/// items; nothing is looked for below one.
pub open spec fn tiles_below(node: AxNode, depth: nat) -> Seq<TileView>
    decreases node, 0nat,
{
    if depth >= MAX_TILE_DEPTH {
        Seq::empty()
    } else if has_role(node, "AXMenuItem"@) {
        own_tile(node)
    } else {
        tiles_among(node.children@, depth + 1)
    }
}

/// The tiles in the trees below elements that are at `depth`, in order.
pub open spec fn tiles_among(nodes: Seq<AxNode>, depth: nat) -> Seq<TileView>
    decreases nodes, nodes.len(),
{
    if nodes.len() == 0 {
        Seq::empty()
    } else {
        tiles_below(nodes[0], depth) + tiles_among(nodes.subrange(1, nodes.len() as int), depth)
    }
}

impl AxNode {
    /// Whether the element has this role.
    fn is_role(&self, role: &str) -> (same: bool)
        ensures
            same == has_role(*self, role@),
    {
        match &self.role {
            Some(r) => same_text(r.as_str(), role),
            None => false,
        }
    }
}

/// The first text in the tree below an element that is at `depth`.
fn find_name_text(node: &AxNode, depth: usize) -> (name: Option<String>)
    requires
        depth <= MAX_NAME_DEPTH + 1,
    ensures
        crate::text::opt_string(name) == text_below(*node, depth as nat),
    decreases MAX_NAME_DEPTH + 1 - depth,
{
    if depth > MAX_NAME_DEPTH {
        return None;
    }
    if node.is_role("AXStaticText") {
        match &node.value {
            Some(v) => {
                if !v.as_str().is_empty() {
                    return Some(v.clone());
                }
            },
            None => {},
        }
    }
    let mut i: usize = 0;
    proof {
        assert(node.children@.subrange(0, node.children@.len() as int) =~= node.children@);
    }
    while i < node.children.len()
        invariant
            depth <= MAX_NAME_DEPTH,
            i <= node.children@.len(),
            text_below(*node, depth as nat) == text_among(
                node.children@.subrange(i as int, node.children@.len() as int),
                (depth + 1) as nat,
            ),
        decreases node.children@.len() - i,
    {
        let ghost rest = node.children@.subrange(i as int, node.children@.len() as int);
        proof {
            assert(rest[0] == node.children@[i as int]);
            assert(rest.subrange(1, rest.len() as int) =~= node.children@.subrange(
                i + 1,
                node.children@.len() as int,
            ));
        }
        let found: Option<String> = find_name_text(&node.children[i], depth + 1);
        if found.is_some() {
            return found;
        }
        i = i + 1;
    }
    None
}

/// The title of the element, or its description where it has no title.
fn label_of(node: &AxNode) -> (text: String)
    ensures
        text@ == label(*node),
{
    match &node.title {
        Some(t) => {
            if !t.as_str().is_empty() {
                return t.clone();
            }
        },
        None => {},
    }
    match &node.description {
        Some(d) => d.clone(),
        None => String::new(),
    }
}

/// Adds the tiles in the tree below an element that is at `depth`.
fn collect_tiles(node: &AxNode, depth: usize, out: &mut Vec<Tile>)
    requires
        depth <= MAX_TILE_DEPTH,
    ensures
        tile_views(final(out)@) == tile_views(old(out)@) + tiles_below(*node, depth as nat),
    decreases MAX_TILE_DEPTH - depth,
{
    if depth >= MAX_TILE_DEPTH {
        proof {
            assert(tile_views(out@) =~= tile_views(out@) + Seq::<TileView>::empty());
        }
        return;
    }
    if node.is_role("AXMenuItem") {
        let ghost before = tile_views(out@);
        let name: String = match find_name_text(node, 0) {
            Some(text) => text,
            None => strip_ax_state_suffixes(label_of(node).as_str()),
        };
        if !name.as_str().is_empty() {
            match node.frame {
                Some(f) => {
                    if f.width > MIN_TILE_KEY && f.height > MIN_TILE_KEY {
                        out.push(Tile { name, frame: f.id });
                    }
                },
                None => {},
            }
        }
        proof {
            assert(tile_views(out@) =~= before + own_tile(*node));
        }
        return;
    }
    let ghost before = tile_views(out@);
    let mut i: usize = 0;
    proof {
        assert(node.children@.subrange(0, node.children@.len() as int) =~= node.children@);
    }
    while i < node.children.len()
        invariant
            depth < MAX_TILE_DEPTH,
            i <= node.children@.len(),
            tile_views(out@) + tiles_among(
                node.children@.subrange(i as int, node.children@.len() as int),
                (depth + 1) as nat,
            ) == before + tiles_below(*node, depth as nat),
        decreases node.children@.len() - i,
    {
        let ghost rest = node.children@.subrange(i as int, node.children@.len() as int);
        let ghost so_far = tile_views(out@);
        collect_tiles(&node.children[i], depth + 1, out);
        proof {
            let next = node.children@.subrange(i + 1, node.children@.len() as int);
            assert(rest[0] == node.children@[i as int]);
            assert(rest.subrange(1, rest.len() as int) =~= next);
            let a = tiles_below(rest[0], (depth + 1) as nat);
            let b = tiles_among(next, (depth + 1) as nat);
            assert(so_far + (a + b) =~= (so_far + a) + b);
        }
        i = i + 1;
    }
    proof {
        let rest = node.children@.subrange(i as int, node.children@.len() as int);
        assert(rest.len() == 0);
        assert(tile_views(out@) + Seq::<TileView>::empty() =~= tile_views(out@));
    }
}

/// The tiles of the participants in the accessibility tree of an application.
pub fn ax_find_tiles(app: &AxNode) -> (tiles: Vec<Tile>)
    ensures
        tile_views(tiles@) == tiles_below(*app, 0),
{
    let mut tiles: Vec<Tile> = Vec::new();
    proof {
        assert(tile_views(tiles@) =~= Seq::<TileView>::empty());
    }
    collect_tiles(app, 0, &mut tiles);
    proof {
        assert(tile_views(tiles@) =~= tiles_below(*app, 0));
    }
    tiles
}

/// Every tile that is found has a name.
pub proof fn law_tiles_have_names(node: AxNode, depth: nat, i: int)
    requires
        0 <= i < tiles_below(node, depth).len(),
    ensures
        tiles_below(node, depth)[i].name.len() > 0,
    decreases node, 0nat,
{
    if depth < MAX_TILE_DEPTH && !has_role(node, "AXMenuItem"@) {
        lemma_tiles_have_names(node.children@, depth + 1, i);
    }
}

proof fn lemma_tiles_have_names(nodes: Seq<AxNode>, depth: nat, i: int)
    requires
        0 <= i < tiles_among(nodes, depth).len(),
    ensures
        tiles_among(nodes, depth)[i].name.len() > 0,
    decreases nodes, nodes.len(),
{
    if nodes.len() > 0 {
        let first = tiles_below(nodes[0], depth);
        if i < first.len() {
            law_tiles_have_names(nodes[0], depth, i);
        } else {
            lemma_tiles_have_names(
                nodes.subrange(1, nodes.len() as int),
                depth,
                i - first.len(),
            );
        }
    }
}

/// The state of a participant begins where one of the five texts for it stands.
pub proof fn law_texts_of_the_state(s: Seq<char>, i: int)
    ensures
        suffix_at(s, i) <==> {
            ||| crate::text::occurs_at(s, ", muted"@, i)
            ||| crate::text::occurs_at(s, ", unmuted"@, i)
            ||| crate::text::occurs_at(s, ", speaking"@, i)
            ||| crate::text::occurs_at(s, ", not speaking"@, i)
            ||| crate::text::occurs_at(s, ", Context menu"@, i)
        },
{
    assert(STATE_SUFFIXES@.len() == 5);
    assert(STATE_SUFFIXES@[0]@ == ", muted"@);
    assert(STATE_SUFFIXES@[1]@ == ", unmuted"@);
    assert(STATE_SUFFIXES@[2]@ == ", speaking"@);
    assert(STATE_SUFFIXES@[3]@ == ", not speaking"@);
    assert(STATE_SUFFIXES@[4]@ == ", Context menu"@);
}

/// A name followed by one of the texts for the state is found again, whatever comes after,
/// without the whitespace around it, as long as no such text stands in it earlier.
pub proof fn law_state_is_cut_off(name: Seq<char>, state: Seq<char>, rest: Seq<char>)
    requires
        state == ", muted"@ || state == ", unmuted"@ || state == ", speaking"@ || state
            == ", not speaking"@ || state == ", Context menu"@,
        forall|i: int|
            0 <= i < name.len() ==> !#[trigger] suffix_at(name + state + rest, i),
    ensures
        stripped(name + state + rest) == crate::text::trimmed(name),
{
    let s = name + state + rest;
    let n = name.len() as int;
    assert(s.subrange(n, n + state.len()) =~= state);
    assert(crate::text::occurs_at(s, state, n));
    law_texts_of_the_state(s, n);
    let k = choose|k: int|
        0 <= k < STATE_SUFFIXES@.len() && crate::text::occurs_at(s, #[trigger] STATE_SUFFIXES@[k]@, n);
    lemma_suffixes_not_empty(k);
    lemma_cut(s, 0);
    if cut_from(s, 0) < s.len() {
        lemma_cut_at_suffix(s, 0);
    }
    assert(cut_from(s, 0) == n);
    assert(s.take(n) =~= name);
}

/// A text without a state is a name as it stands, without the whitespace around it.
pub proof fn law_name_without_state(name: Seq<char>)
    requires
        forall|i: int| 0 <= i < name.len() ==> !#[trigger] suffix_at(name, i),
    ensures
        stripped(name) == crate::text::trimmed(name),
{
    lemma_cut(name, 0);
    if cut_from(name, 0) < name.len() {
        lemma_cut_at_suffix(name, 0);
    }
    assert(name.take(name.len() as int) =~= name);
}

/// The tiles of two groups of elements are those of the first and then those of the second.
pub proof fn law_tiles_add_up(first: Seq<AxNode>, second: Seq<AxNode>, depth: nat)
    ensures
        tiles_among(first + second, depth) == tiles_among(first, depth) + tiles_among(
            second,
            depth,
        ),
    decreases first.len(),
{
    let all = first + second;
    if first.len() == 0 {
        assert(all =~= second);
        assert(tiles_among(all, depth) =~= tiles_among(first, depth) + tiles_among(second, depth));
    } else {
        let rest = first.subrange(1, first.len() as int);
        law_tiles_add_up(rest, second, depth);
        assert(all.subrange(1, all.len() as int) =~= rest + second);
        assert(all[0] == first[0]);
        let a = tiles_below(first[0], depth);
        let b = tiles_among(rest, depth);
        let c = tiles_among(second, depth);
        assert(a + (b + c) =~= (a + b) + c);
    }
}

/// An element alone has the tiles below it.
pub proof fn law_tiles_of_one(node: AxNode, depth: nat)
    ensures
        tiles_among(seq![node], depth) == tiles_below(node, depth),
        tiles_among(Seq::empty(), depth).len() == 0,
{
    let nodes = seq![node];
    let rest = nodes.subrange(1, 1);
    assert(rest.len() == 0);
    assert(tiles_among(rest, depth) =~= Seq::empty());
    assert(tiles_among(nodes, depth) =~= tiles_below(node, depth));
}

/// A menu item above the fortieth level is a tile where it is more than ten points wide and
/// high and has a name; nothing is looked for below it. Other elements have the tiles of
/// their children, and from the fortieth level on there are none.
pub proof fn law_menu_items_are_tiles(node: AxNode, depth: nat)
    ensures
        ({
            let found = tiles_below(node, depth);
            let item = node.role is Some && node.role->0@ == "AXMenuItem"@;
            let name = tile_name(node);
            &&& depth >= 40 ==> found.len() == 0
            &&& depth < 40 && !item ==> found == tiles_among(node.children@, depth + 1)
            &&& depth < 40 && item ==> {
                let shown = node.frame is Some && node.frame->0.width > 0x4024_0000_0000_0000
                    && node.frame->0.height > 0x4024_0000_0000_0000 && name.len() > 0;
                &&& !shown ==> found.len() == 0
                &&& shown ==> found.len() == 1 && found[0].name == name && found[0].frame
                    == node.frame->0.id
            }
        }),
{
}

/// The name of a tile is the first text below it that is found, and otherwise what its title
/// says, or its description where it has no title.
pub proof fn law_name_of_a_tile(node: AxNode)
    ensures
        text_below(node, 0) is Some ==> tile_name(node) == text_below(node, 0)->0,
        text_below(node, 0) is None ==> ({
            let titled = node.title is Some && node.title->0@.len() > 0;
            &&& titled ==> tile_name(node) == stripped(node.title->0@)
            &&& !titled && node.description is Some ==> tile_name(node) == stripped(
                node.description->0@,
            )
            &&& !titled && node.description is None ==> tile_name(node).len() == 0
        }),
{
    let none = Seq::<char>::empty();
    assert(none.take(0) =~= none);
    crate::text::lemma_trimmed_is_part(none);
}

/// A static text that is not empty is the text of itself, down to the eighth level below a
/// tile. Any other element has the first text of its children, and deeper down there is
/// none.
pub proof fn law_text_of_an_element(node: AxNode, depth: nat)
    ensures
        ({
            let found = text_below(node, depth);
            let text = node.role is Some && node.role->0@ == "AXStaticText"@ && node.value is Some
                && node.value->0@.len() > 0;
            &&& depth > 8 ==> found is None
            &&& depth <= 8 && text ==> found == Some(node.value->0@)
            &&& depth <= 8 && !text ==> found == text_among(node.children@, depth + 1)
        }),
{
}

/// The first text of a group of elements is that of the first element that has one.
pub proof fn law_first_text_is_found(nodes: Seq<AxNode>, depth: nat, i: int)
    requires
        0 <= i < nodes.len(),
        forall|k: int| 0 <= k < i ==> text_below(#[trigger] nodes[k], depth) is None,
        text_below(nodes[i], depth) is Some,
    ensures
        text_among(nodes, depth) == text_below(nodes[i], depth),
    decreases nodes.len(),
{
    if i > 0 {
        let rest = nodes.subrange(1, nodes.len() as int);
        assert(text_below(nodes[0], depth) is None);
        assert forall|k: int| 0 <= k < i - 1 implies text_below(#[trigger] rest[k], depth)
            is None by {
            assert(rest[k] == nodes[k + 1]);
        }
        law_first_text_is_found(rest, depth, i - 1);
    }
}

/// A group of elements without a text has none.
pub proof fn law_no_text_is_found(nodes: Seq<AxNode>, depth: nat)
    requires
        forall|k: int| 0 <= k < nodes.len() ==> text_below(#[trigger] nodes[k], depth) is None,
    ensures
        text_among(nodes, depth) is None,
    decreases nodes.len(),
{
    if nodes.len() > 0 {
        let rest = nodes.subrange(1, nodes.len() as int);
        assert(text_below(nodes[0], depth) is None);
        assert forall|k: int| 0 <= k < rest.len() implies text_below(#[trigger] rest[k], depth)
            is None by {
            assert(rest[k] == nodes[k + 1]);
        }
        law_no_text_is_found(rest, depth);
    }
}

/// What is said of the tiles is what they hold.
pub proof fn law_tiles_say_what_they_hold(tiles: Seq<Tile>)
    ensures
        tile_views(tiles).len() == tiles.len(),
        forall|i: int|
            0 <= i < tiles.len() ==> (#[trigger] tile_views(tiles)[i]).name == tiles[i].name@
                && tile_views(tiles)[i].frame == tiles[i].frame,
{
}

} // verus!
