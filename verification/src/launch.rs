//! Start-up decisions of the emulator binary: the build-features report
//! line, whether a window opens, and which log modules a debug-log spec names.

use vstd::prelude::*;
use vstd::string::StringExecFns;

use crate::text::{is_white_space, white_space};

verus! {

// ── build features ──────────────────────────────────────────────────────────

/// The names of the enabled features, in order.
pub open spec fn enabled_names(features: Seq<(Seq<char>, bool)>) -> Seq<Seq<char>>
    decreases features.len(),
{
    if features.len() == 0 {
        Seq::empty()
    } else {
        let rest = enabled_names(features.drop_last());
        if features.last().1 {
            rest.push(features.last().0)
        } else {
            rest
        }
    }
}

/// `parts` separated by single spaces.
pub open spec fn space_joined(parts: Seq<Seq<char>>) -> Seq<char>
    decreases parts.len(),
{
    if parts.len() == 0 {
        Seq::empty()
    } else if parts.len() == 1 {
        parts[0]
    } else {
        space_joined(parts.drop_last()) + seq![' '] + parts.last()
    }
}

/// The report line: the enabled feature names separated by spaces, or
/// `(none)`.
pub open spec fn features_line(features: Seq<(Seq<char>, bool)>) -> Seq<char> {
    let on = enabled_names(features);
    "iris: build features: "@ + if on.len() == 0 {
        "(none)"@
    } else {
        space_joined(on)
    }
}

pub open spec fn feature_views(features: Seq<(&str, bool)>) -> Seq<(Seq<char>, bool)> {
    features.map_values(|f: (&str, bool)| (f.0@, f.1))
}

/// The line reporting which compile-time features (name, enabled) a binary
/// was built with.
pub fn build_features_line(features: &[(&str, bool)]) -> (s: String)
    ensures
        s@ == features_line(feature_views(features@)),
{
    let ghost fv = feature_views(features@);
    let mut names = String::new();
    let mut any = false;
    let mut i: usize = 0;
    while i < features.len()
        invariant
            i <= features@.len(),
            fv == feature_views(features@),
            any == (enabled_names(fv.subrange(0, i as int)).len() > 0),
            names@ == space_joined(enabled_names(fv.subrange(0, i as int))),
        decreases features@.len() - i,
    {
        let (name, on) = features[i];
        proof {
            assert(fv.subrange(0, i + 1).drop_last() =~= fv.subrange(0, i as int));
            assert(fv.subrange(0, i + 1).last() == (name@, on));
        }
        if on {
            proof {
                let prev = enabled_names(fv.subrange(0, i as int));
                assert(prev.push(name@).drop_last() =~= prev);
                reveal_strlit(" ");
                assert(" "@ =~= seq![' ']);
            }
            if any {
                names.append(" ");
            }
            names.append(name);
            any = true;
        }
        i = i + 1;
    }
    assert(fv.subrange(0, features@.len() as int) =~= fv);
    let mut s = String::from_str("iris: build features: ");
    if any {
        s.append(names.as_str());
    } else {
        s.append("(none)");
    }
    s
}

// ── window ──────────────────────────────────────────────────────────────────

pub open spec fn spec_show_window(headless: bool, ci: bool, ci_display: bool) -> bool {
    !headless && !(ci && !ci_display)
}

/// Whether the emulator opens a window: not when headless, and in CI mode
/// only when the CI display was asked for.
pub fn show_window(headless: bool, ci: bool, ci_display: bool) -> (r: bool)
    ensures
        r == spec_show_window(headless, ci, ci_display),
{
    !headless && !(ci && !ci_display)
}

/// What the emulator reports when it runs without a window; `None` when a
/// window opens.
pub fn windowless_notice(headless: bool, ci: bool, ci_display: bool) -> (n: Option<&'static str>)
    ensures
        n is None <==> spec_show_window(headless, ci, ci_display),
        n matches Some(m) ==> m@ == (if headless {
            "iris: running headless (no REX3, no window)"@
        } else {
            "iris: --ci mode (REX3 rendering to offscreen buffer, no window)"@
        }),
{
    if show_window(headless, ci, ci_display) {
        None
    } else if headless {
        Some("iris: running headless (no REX3, no window)")
    } else {
        Some("iris: --ci mode (REX3 rendering to offscreen buffer, no window)")
    }
}

// ── debug-log spec ──────────────────────────────────────────────────────────

/// `s` cut at each comma: `n` commas give `n + 1` pieces, some possibly empty.
pub open spec fn comma_pieces(s: Seq<char>) -> Seq<Seq<char>>
    decreases s.len(),
{
    if s.len() == 0 {
        seq![Seq::<char>::empty()]
    } else {
        let prev = comma_pieces(s.drop_last());
        if s.last() == ',' {
            prev.push(Seq::empty())
        } else {
            prev.update(prev.len() - 1, prev.last().push(s.last()))
        }
    }
}

/// `s` without its leading whitespace.
pub open spec fn trim_start(s: Seq<char>) -> Seq<char>
    decreases s.len(),
{
    if s.len() > 0 && white_space(s[0]) {
        trim_start(s.drop_first())
    } else {
        s
    }
}

/// `s` without its trailing whitespace.
pub open spec fn trim_end(s: Seq<char>) -> Seq<char>
    decreases s.len(),
{
    if s.len() > 0 && white_space(s.last()) {
        trim_end(s.drop_last())
    } else {
        s
    }
}

/// `s` without surrounding whitespace.
pub open spec fn trimmed(s: Seq<char>) -> Seq<char> {
    trim_end(trim_start(s))
}

/// The pieces, trimmed, with the empty ones dropped.
pub open spec fn names_in(pieces: Seq<Seq<char>>) -> Seq<Seq<char>>
    decreases pieces.len(),
{
    if pieces.len() == 0 {
        Seq::empty()
    } else {
        let prev = names_in(pieces.drop_last());
        let t = trimmed(pieces.last());
        if t.len() > 0 {
            prev.push(t)
        } else {
            prev
        }
    }
}

/// The module names a debug-log spec lists.
pub open spec fn log_names(spec: Seq<char>) -> Seq<Seq<char>> {
    names_in(comma_pieces(spec))
}

pub open spec fn string_views(v: Seq<String>) -> Seq<Seq<char>> {
    v.map_values(|x: String| x@)
}

proof fn lemma_trim_start(s: Seq<char>, a: int)
    requires
        0 <= a <= s.len(),
        forall|j: int| 0 <= j < a ==> white_space(#[trigger] s[j]),
        a == s.len() || !white_space(s[a]),
    ensures
        trim_start(s) == s.subrange(a, s.len() as int),
    decreases a,
{
    if a == 0 {
        assert(s.subrange(0, s.len() as int) =~= s);
    } else {
        let t = s.drop_first();
        assert forall|j: int| 0 <= j < a - 1 implies white_space(#[trigger] t[j]) by {
            assert(t[j] == s[j + 1]);
        }
        lemma_trim_start(t, a - 1);
        assert(t.subrange(a - 1, t.len() as int) =~= s.subrange(a, s.len() as int));
    }
}

proof fn lemma_trim_end(s: Seq<char>, b: int)
    requires
        0 <= b <= s.len(),
        forall|j: int| b <= j < s.len() ==> white_space(#[trigger] s[j]),
        b == 0 || !white_space(s[b - 1]),
    ensures
        trim_end(s) == s.subrange(0, b),
    decreases s.len() - b,
{
    if b == s.len() {
        assert(s.subrange(0, b) =~= s);
    } else {
        let t = s.drop_last();
        assert(white_space(s[s.len() - 1]));
        lemma_trim_end(t, b);
        assert(t.subrange(0, b) =~= s.subrange(0, b));
    }
}

/// Append `s[start..end]`, trimmed, to `out` unless it is blank.
fn push_trimmed(s: &str, start: usize, end: usize, out: &mut Vec<String>)
    requires
        start <= end <= s@.len(),
    ensures
        ({
            let t = trimmed(s@.subrange(start as int, end as int));
            string_views(final(out)@) == if t.len() > 0 {
                string_views(old(out)@).push(t)
            } else {
                string_views(old(out)@)
            }
        }),
{
    let mut a = start;
    while a < end
        invariant
            start <= a <= end,
            end <= s@.len(),
            forall|j: int| start <= j < a ==> white_space(#[trigger] s@[j]),
        ensures
            start <= a <= end,
            forall|j: int| start <= j < a ==> white_space(#[trigger] s@[j]),
            a == end || !white_space(s@[a as int]),
        decreases end - a,
    {
        if !is_white_space(s.get_char(a)) {
            break;
        }
        a = a + 1;
    }
    let mut b = end;
    while b > a
        invariant
            a <= b <= end,
            end <= s@.len(),
            forall|j: int| b <= j < end ==> white_space(#[trigger] s@[j]),
        ensures
            a <= b <= end,
            forall|j: int| b <= j < end ==> white_space(#[trigger] s@[j]),
            b == a || !white_space(s@[b - 1]),
        decreases b - a,
    {
        if !is_white_space(s.get_char(b - 1)) {
            break;
        }
        b = b - 1;
    }
    proof {
        let p = s@.subrange(start as int, end as int);
        assert forall|j: int| 0 <= j < a - start implies white_space(#[trigger] p[j]) by {
            assert(p[j] == s@[start + j]);
        }
        lemma_trim_start(p, a - start);
        let q = s@.subrange(a as int, end as int);
        assert(p.subrange(a - start, p.len() as int) =~= q);
        assert forall|j: int| b - a <= j < q.len() implies white_space(#[trigger] q[j]) by {
            assert(q[j] == s@[a + j]);
        }
        lemma_trim_end(q, b - a);
        assert(q.subrange(0, b - a) =~= s@.subrange(a as int, b as int));
    }
    if a < b {
        let ghost before = string_views(out@);
        out.push(String::from_str(s.substring_char(a, b)));
        assert(string_views(out@) =~= before.push(s@.subrange(a as int, b as int)));
    }
}

/// The log module names in a debug-log spec such as `"mc, mips"`: the
/// comma-separated pieces, trimmed of surrounding whitespace, with empty
/// pieces dropped.
pub fn log_module_names(spec: &str) -> (names: Vec<String>)
    ensures
        string_views(names@) == log_names(spec@),
{
    let n = spec.unicode_len();
    let mut out: Vec<String> = Vec::new();
    let mut start: usize = 0;
    let mut i: usize = 0;
    let ghost mut done: Seq<Seq<char>> = Seq::empty();
    assert(spec@.subrange(0, 0) =~= Seq::<char>::empty());
    assert(string_views(out@) =~= Seq::<Seq<char>>::empty());
    while i < n
        invariant
            n == spec@.len(),
            start <= i <= n,
            comma_pieces(spec@.subrange(0, i as int)) == done.push(
                spec@.subrange(start as int, i as int),
            ),
            string_views(out@) == names_in(done),
        decreases n - i,
    {
        let c = spec.get_char(i);
        let ghost piece = spec@.subrange(start as int, i as int);
        proof {
            let s1 = spec@.subrange(0, i + 1);
            assert(s1.drop_last() =~= spec@.subrange(0, i as int));
            assert(s1.last() == c);
        }
        if c == ',' {
            push_trimmed(spec, start, i, &mut out);
            proof {
                assert(done.push(piece).drop_last() =~= done);
                done = done.push(piece);
                assert(spec@.subrange(i + 1, i + 1) =~= Seq::<char>::empty());
            }
            start = i + 1;
        } else {
            proof {
                assert(piece.push(c) =~= spec@.subrange(start as int, i + 1));
                assert(done.push(piece).update(done.len() as int, piece.push(c)) =~= done.push(
                    piece.push(c),
                ));
            }
        }
        i = i + 1;
    }
    let ghost last = spec@.subrange(start as int, n as int);
    push_trimmed(spec, start, n, &mut out);
    proof {
        assert(done.push(last).drop_last() =~= done);
        assert(spec@.subrange(0, n as int) =~= spec@);
    }
    out
}

} // verus!
