//! Where the files of a recording go.
use vstd::prelude::*;
use vstd::string::*;

use crate::text::{decimal_text, to_chars};

verus! {

/// The three files of a recording.
#[derive(Debug, Clone, PartialEq, Eq)]
pub struct RecordingPaths {
    /// Everything: the system tap and the microphone together.
    pub mixed_path: String,
    /// The system tap: what the others said.
    pub others_path: String,
    /// The microphone: what the local user said.
    pub self_path: String,
}

/// The text of the three paths.
pub struct PathsView {
    pub mixed_path: Seq<char>,
    pub others_path: Seq<char>,
    pub self_path: Seq<char>,
}

impl View for RecordingPaths {
    type V = PathsView;

    open spec fn view(&self) -> PathsView {
        PathsView { mixed_path: self.mixed_path@, others_path: self.others_path@, self_path: self.self_path@ }
    }
}

/// `name` in the directory `dir`; an empty `dir` is the current directory.
pub open spec fn joined(dir: Seq<char>, name: Seq<char>) -> Seq<char> {
    if dir.len() == 0 {
        name
    } else if dir.last() == '/' {
        dir + name
    } else {
        dir + seq!['/'] + name
    }
}

/// What the paths of a recording begin with, when it was started at `secs`
/// seconds of Unix time.
pub open spec fn stem(dir: Seq<char>, secs: nat) -> Seq<char> {
    joined(dir, crate::text::decimal(secs) + "-meeting"@)
}

/// The paths of a recording into `dir` that was started at `secs` seconds of
/// Unix time.
pub open spec fn paths_of(dir: Seq<char>, secs: nat) -> PathsView {
    PathsView {
        mixed_path: stem(dir, secs) + ".wav"@,
        others_path: stem(dir, secs) + "-others.wav"@,
        self_path: stem(dir, secs) + "-self.wav"@,
    }
}

/// The paths of a recording into `dir` that was started at `secs` seconds of
/// Unix time.
pub fn recording_paths(dir: &str, secs: u64) -> (paths: RecordingPaths)
    ensures
        paths@ == paths_of(dir@, secs as nat),
{
    let mut base: String = dir.to_owned();
    let chars: Vec<char> = to_chars(dir);
    if chars.len() > 0 && chars[chars.len() - 1] != '/' {
        proof {
            reveal_strlit("/");
            assert("/"@ =~= seq!['/']);
        }
        base.append("/");
    }
    base.append(decimal_text(secs).as_str());
    base.append("-meeting");
    proof {
        assert(base@ =~= stem(dir@, secs as nat));
    }
    let mut mixed_path: String = base.clone();
    mixed_path.append(".wav");
    let mut others_path: String = base.clone();
    others_path.append("-others.wav");
    let mut self_path: String = base;
    self_path.append("-self.wav");
    RecordingPaths { mixed_path, others_path, self_path }
}

/// The three files of a recording are different files, and recordings that were
/// started in different seconds share no file.
pub proof fn law_paths_are_distinct(dir: Seq<char>, s: nat, t: nat)
    ensures
        ({
            let p = paths_of(dir, s);
            let q = paths_of(dir, t);
            &&& p.mixed_path != p.others_path && p.mixed_path != p.self_path && p.others_path != p.self_path
            &&& s != t ==> p.mixed_path != q.mixed_path && p.others_path != q.others_path && p.self_path != q.self_path
            &&& s != t ==> p.mixed_path != q.others_path && p.mixed_path != q.self_path && p.others_path != q.self_path
        }),
{
    reveal_strlit(".wav");
    reveal_strlit("-others.wav");
    reveal_strlit("-self.wav");
    reveal_strlit("-meeting");
    let p = paths_of(dir, s);
    let q = paths_of(dir, t);
    assert(p.mixed_path.len() != p.others_path.len());
    assert(p.mixed_path.len() != p.self_path.len());
    assert(p.others_path.len() != p.self_path.len());
    assert(stem(dir, s).last() == 'g');
    assert(stem(dir, t).last() == 'g');
    if s != t {
        lemma_tail_decides(stem(dir, s), stem(dir, t));
        if stem(dir, s) == stem(dir, t) {
            lemma_stem_tells_second(dir, s, t);
        }
    }
}

/// A path is its stem and its ending.
proof fn lemma_tail_decides(a: Seq<char>, b: Seq<char>)
    requires
        a.len() >= 8,
        b.len() >= 8,
        a.last() == 'g',
        b.last() == 'g',
    ensures
        a + ".wav"@ == b + ".wav"@ ==> a == b,
        a + "-others.wav"@ == b + "-others.wav"@ ==> a == b,
        a + "-self.wav"@ == b + "-self.wav"@ ==> a == b,
        a + ".wav"@ != b + "-others.wav"@,
        a + ".wav"@ != b + "-self.wav"@,
        a + "-others.wav"@ != b + "-self.wav"@,
{
    reveal_strlit(".wav");
    reveal_strlit("-others.wav");
    reveal_strlit("-self.wav");
    if a + ".wav"@ == b + ".wav"@ {
        assert(a =~= (a + ".wav"@).take(a.len() as int));
        assert(b =~= (b + ".wav"@).take(b.len() as int));
    }
    if a + "-others.wav"@ == b + "-others.wav"@ {
        assert(a =~= (a + "-others.wav"@).take(a.len() as int));
        assert(b =~= (b + "-others.wav"@).take(b.len() as int));
    }
    if a + "-self.wav"@ == b + "-self.wav"@ {
        assert(a =~= (a + "-self.wav"@).take(a.len() as int));
        assert(b =~= (b + "-self.wav"@).take(b.len() as int));
    }
    let x = a + ".wav"@;
    let y = b + "-others.wav"@;
    assert(x[x.len() - 5] == 'g');
    assert(y[y.len() - 5] == 's');
    let z = b + "-self.wav"@;
    assert(z[z.len() - 5] == 'f');
    let w = a + "-others.wav"@;
    assert(w[w.len() - 5] == 's');
}

/// The stem of a recording tells the second in which it was started.
proof fn lemma_stem_tells_second(dir: Seq<char>, s: nat, t: nat)
    requires
        stem(dir, s) == stem(dir, t),
    ensures
        s == t,
{
    let prefix = if dir.len() == 0 {
        Seq::empty()
    } else if dir.last() == '/' {
        dir
    } else {
        dir + seq!['/']
    };
    let a = crate::text::decimal(s);
    let b = crate::text::decimal(t);
    let m = "-meeting"@;
    assert(stem(dir, s) =~= prefix + a + m);
    assert(stem(dir, t) =~= prefix + b + m);
    let n = prefix.len() as int;
    assert(a =~= stem(dir, s).subrange(n, n + a.len()));
    assert(b =~= stem(dir, t).subrange(n, n + b.len()));
    crate::text::lemma_decimal_reads_back(s);
    crate::text::lemma_decimal_reads_back(t);
}

/// The files of a recording lie in the directory, go by the second in which the recording
/// was started, and end as what they hold does.
pub proof fn law_paths_are_in_the_directory(dir: Seq<char>, secs: nat)
    ensures
        ({
            let p = paths_of(dir, secs);
            let name = crate::text::decimal(secs) + "-meeting"@;
            let base = if dir.len() == 0 {
                name
            } else if dir.last() == '/' {
                dir + name
            } else {
                dir + seq!['/'] + name
            };
            &&& p.mixed_path == base + ".wav"@
            &&& p.others_path == base + "-others.wav"@
            &&& p.self_path == base + "-self.wav"@
        }),
{
}

/// What is said of the paths of a recording is what they hold.
pub proof fn law_paths_say_what_they_hold(p: RecordingPaths)
    ensures
        p@.mixed_path == p.mixed_path@,
        p@.others_path == p.others_path@,
        p@.self_path == p.self_path@,
{
}

} // verus!
