//! The log line format: `[LEVEL] tag: message`, where the tag is the last
//! segment of the module path.
use vstd::prelude::*;

use crate::text;
use vstd::string::StrSliceExecFns;

verus! {

/// Log levels, most severe first.
#[derive(Clone, Copy, PartialEq, Eq, Structural, Debug)]
pub enum Level {
    Error,
    Warn,
    Info,
    Debug,
    Trace,
}

pub open spec fn level_text(level: Level) -> Seq<char> {
    match level {
        Level::Error => "ERROR"@,
        Level::Warn => "WARN"@,
        Level::Info => "INFO"@,
        Level::Debug => "DEBUG"@,
        Level::Trace => "TRACE"@,
    }
}

impl Level {
    /// The upper-case name of the level.
    pub fn as_str(&self) -> (r: &'static str)
        ensures
            r@ == level_text(*self),
    {
        match self {
            Level::Error => "ERROR",
            Level::Warn => "WARN",
            Level::Info => "INFO",
            Level::Debug => "DEBUG",
            Level::Trace => "TRACE",
        }
    }
}

/// What follows the last `::` in a module path (all of it when there is none).
pub open spec fn short_tag(target: Seq<char>) -> Seq<char>
    decreases target.len(),
{
    if target.len() < 2 {
        target
    } else if target[target.len() - 2] == ':' && target.last() == ':' {
        Seq::empty()
    } else {
        short_tag(target.drop_last()).push(target.last())
    }
}

proof fn lemma_short_tag(s: Seq<char>, k: int)
    requires
        0 <= k <= s.len(),
        k >= 2 ==> s[k - 2] == ':' && s[k - 1] == ':',
        forall|j: int| k <= j < s.len() && j >= 1 ==> !(s[j - 1] == ':' && #[trigger] s[j] == ':'),
        k < 2 ==> forall|j: int| 1 <= j < s.len() ==> !(s[j - 1] == ':' && #[trigger] s[j] == ':'),
    ensures
        short_tag(s) == s.skip(if k >= 2 { k } else { 0 }),
    decreases s.len(),
{
    let start = if k >= 2 { k } else { 0 };
    if s.len() < 2 {
        assert(s.skip(0) =~= s);
    } else if s[s.len() - 2] == ':' && s.last() == ':' {
        assert(k == s.len());
        assert(s.skip(k) =~= Seq::<char>::empty());
    } else {
        let t = s.drop_last();
        if k == s.len() {
            assert(false);
        }
        lemma_short_tag(t, k);
        assert(t.skip(start).push(s.last()) =~= s.skip(start));
    }
}

/// The tag of a log target: its last `::`-separated segment.
pub fn short_tag_of(target: &str) -> (r: String)
    ensures
        r@ == short_tag(target@),
{
    let v = text::chars_of(target);
    let n = v.len();
    let mut k = n;
    while k >= 2 && !(v[k - 2] == ':' && v[k - 1] == ':')
        invariant
            n == v@.len(),
            k <= n,
            forall|j: int| k <= j < n && j >= 1 ==> !(v@[j - 1] == ':' && #[trigger] v@[j] == ':'),
        decreases k,
    {
        k = k - 1;
    }
    proof {
        if k < 2 {
            assert forall|j: int| 1 <= j < n implies !(v@[j - 1] == ':' && #[trigger] v@[j] == ':') by {
                if j < k {
                    assert(j == 1 && k == 1 || k == 0 || j >= k);
                }
            }
        }
        lemma_short_tag(v@, k as int);
    }
    let start = if k >= 2 { k } else { 0 };
    assert(v@.skip(start as int) =~= v@.subrange(start as int, n as int));
    text::string_from(v.as_slice(), start, n)
}

/// A log line: `[LEVEL] tag: message`.
pub fn format_log_line(level: Level, target: &str, message: &str) -> (r: String)
    ensures
        r@ == "["@ + level_text(level) + "] "@ + short_tag(target@) + ": "@ + message@,
{
    let mut r = String::from_str("[");
    r.append(level.as_str());
    r.append("] ");
    let tag = short_tag_of(target);
    r.append(tag.as_str());
    r.append(": ");
    r.append(message);
    r
}

} // verus!
