//! Sanitization of language-model output before it reaches the document:
//! every `<think>`…`</think>` block is removed (hidden deliberation must
//! never reach the editor), then surrounding whitespace and a single wrapping
//! Markdown fence are stripped.

use vstd::prelude::*;
use vstd::string::StrSliceExecFns;
use vstd::string::StringExecFns;

use crate::textutil::has_prefix;
use crate::textutil::has_suffix;
use crate::textutil::is_ws;
use crate::textutil::lemma_trim_clean;
use crate::textutil::lemma_trim_noop;
use crate::textutil::str_has_prefix;
use crate::textutil::str_has_suffix;
use crate::textutil::trim_spec;
use crate::textutil::trim_str;

verus! {

/// The opening marker of a hidden-deliberation block.
pub open spec fn think_open() -> Seq<char> {
    seq!['<', 't', 'h', 'i', 'n', 'k', '>']
}

/// The closing marker of a hidden-deliberation block.
pub open spec fn think_close() -> Seq<char> {
    seq!['<', '/', 't', 'h', 'i', 'n', 'k', '>']
}

/// A bare Markdown fence.
pub open spec fn fence() -> Seq<char> {
    seq!['`', '`', '`']
}

/// A fence opener tagged with the document language.
pub open spec fn fence_latex() -> Seq<char> {
    seq!['`', '`', '`', 'l', 'a', 't', 'e', 'x']
}

/// A fence opener tagged with the abbreviated language name.
pub open spec fn fence_tex() -> Seq<char> {
    seq!['`', '`', '`', 't', 'e', 'x']
}

/// The opening marker occurs at index `i` of `s`.
pub open spec fn open_at(s: Seq<char>, i: int) -> bool {
    0 <= i && i + 7 <= s.len() && s.subrange(i, i + 7) == think_open()
}

/// The closing marker occurs at index `i` of `s`.
pub open spec fn close_at(s: Seq<char>, i: int) -> bool {
    0 <= i && i + 8 <= s.len() && s.subrange(i, i + 8) == think_close()
}

/// A closing marker occurs at or after index `j`.
pub open spec fn has_close_from(s: Seq<char>, j: int) -> bool {
    exists|k: int| j <= k && close_at(s, k)
}

/// An opening marker at `i` that a closing marker later answers: the
/// non-greedy pattern matches here.
pub open spec fn think_match_at(s: Seq<char>, i: int) -> bool {
    open_at(s, i) && has_close_from(s, i + 7)
}

/// `s` holds no matched think block at all.
pub open spec fn think_free(s: Seq<char>) -> bool {
    forall|i: int| !think_match_at(s, i)
}

/// `s` from index `i` on, with every matched think block removed. At an
/// answered opening marker the scan jumps past the nearest closing marker;
/// any other character is kept.
pub open spec fn strip_from(s: Seq<char>, i: int) -> Seq<char>
    decreases s.len() - i, 0int,
{
    if i < 0 || i >= s.len() {
        Seq::<char>::empty()
    } else if think_match_at(s, i) {
        skip_to_close(s, i + 7)
    } else {
        seq![s[i]] + strip_from(s, i + 1)
    }
}

/// Scans forward from `j` for the nearest closing marker and resumes
/// stripping after it.
pub open spec fn skip_to_close(s: Seq<char>, j: int) -> Seq<char>
    decreases s.len() - j, 1int,
{
    if j < 0 || j + 8 > s.len() {
        Seq::<char>::empty()
    } else if close_at(s, j) {
        strip_from(s, j + 8)
    } else {
        skip_to_close(s, j + 1)
    }
}

/// `s` with every matched think block removed.
pub open spec fn strip_think(s: Seq<char>) -> Seq<char> {
    strip_from(s, 0)
}

/// `s` with one leading fence opener removed, if present; the tagged forms
/// are recognized before the bare fence.
pub open spec fn strip_fence_open(s: Seq<char>) -> Seq<char> {
    if has_prefix(s, fence_latex()) {
        s.subrange(8, s.len() as int)
    } else if has_prefix(s, fence_tex()) {
        s.subrange(6, s.len() as int)
    } else if has_prefix(s, fence()) {
        s.subrange(3, s.len() as int)
    } else {
        s
    }
}

/// `s` with one trailing fence removed, if present.
pub open spec fn strip_fence_close(s: Seq<char>) -> Seq<char> {
    if has_suffix(s, fence()) {
        s.subrange(0, s.len() - 3)
    } else {
        s
    }
}

/// The full sanitization pipeline: think blocks out first (a model may wrap
/// its visible answer in a fence after a think block), then trim, then the
/// fence pair, then trim again.
pub open spec fn sanitize_spec(s: Seq<char>) -> Seq<char> {
    trim_spec(strip_fence_close(strip_fence_open(trim_spec(strip_think(s)))))
}

/// Scanning for the nearest closing marker from `j` lands on `m` when `m` is
/// the first occurrence at or after `j`.
proof fn lemma_skip_to_close(s: Seq<char>, j: int, m: int)
    requires
        0 <= j <= m,
        close_at(s, m),
        forall|k: int| j <= k < m ==> !close_at(s, k),
    ensures
        skip_to_close(s, j) == strip_from(s, m + 8),
    decreases m - j,
{
    if j < m {
        lemma_skip_to_close(s, j + 1, m);
    }
}

/// On think-free text the stripper copies its input unchanged.
proof fn lemma_strip_noop(s: Seq<char>, i: int)
    requires
        0 <= i <= s.len(),
        think_free(s),
    ensures
        strip_from(s, i) == s.subrange(i, s.len() as int),
    decreases s.len() - i,
{
    if i >= s.len() {
        assert(strip_from(s, i) =~= s.subrange(i, s.len() as int));
    } else {
        assert(!think_match_at(s, i));
        lemma_strip_noop(s, i + 1);
        assert(seq![s[i]] + s.subrange(i + 1, s.len() as int) =~= s.subrange(
            i,
            s.len() as int,
        ));
    }
}

/// A tagged fence opener begins with the bare fence.
proof fn lemma_tagged_fence_prefix(s: Seq<char>)
    ensures
        has_prefix(s, fence_latex()) ==> has_prefix(s, fence()),
        has_prefix(s, fence_tex()) ==> has_prefix(s, fence()),
{
    if has_prefix(s, fence_latex()) {
        assert(s.subrange(0, 3) =~= fence()) by {
            assert(forall|k: int|
                0 <= k < 3 ==> s.subrange(0, 8)[k] == #[trigger] s.subrange(0, 3)[k]);
        }
    }
    if has_prefix(s, fence_tex()) {
        assert(s.subrange(0, 3) =~= fence()) by {
            assert(forall|k: int|
                0 <= k < 3 ==> s.subrange(0, 6)[k] == #[trigger] s.subrange(0, 3)[k]);
        }
    }
}

/// One sanitization pass fully resolved `y`: no answered think marker and no
/// edge fence remains.
pub open spec fn fully_sanitized(y: Seq<char>) -> bool {
    &&& think_free(y)
    &&& !has_prefix(y, fence())
    &&& !has_suffix(y, fence())
}

/// Sanitizing is a fixed point on text that is already clean: trimmed,
/// think-free, and without an edge fence.
pub proof fn lemma_sanitize_fixed_point(y: Seq<char>)
    requires
        fully_sanitized(y),
        y.len() == 0 || (!is_ws(y[0]) && !is_ws(y.last())),
    ensures
        sanitize_spec(y) == y,
{
    lemma_strip_noop(y, 0);
    assert(y.subrange(0, y.len() as int) =~= y);
    lemma_trim_noop(y);
    lemma_tagged_fence_prefix(y);
    assert(strip_fence_open(y) == y);
    assert(strip_fence_close(y) == y);
}

/// Sanitization is idempotent whenever one pass resolves the input: on text
/// with zero or more complete think blocks and at most one wrapping fence
/// pair the first pass leaves no marker behind, and a second pass then
/// changes nothing.
pub proof fn lemma_sanitize_idempotent(x: Seq<char>)
    requires
        fully_sanitized(sanitize_spec(x)),
    ensures
        sanitize_spec(sanitize_spec(x)) == sanitize_spec(x),
{
    let y = sanitize_spec(x);
    lemma_trim_clean(strip_fence_close(strip_fence_open(trim_spec(strip_think(x)))));
    lemma_sanitize_fixed_point(y);
}

/// On text with no answered think marker and no fence anywhere, one
/// sanitization pass only trims, and a second pass changes nothing — here
/// with no premise on the output: the one pass is shown to resolve such
/// input completely.
pub proof fn lemma_sanitize_idempotent_plain(x: Seq<char>)
    requires
        think_free(x),
        forall|i: int| 0 <= i && i + 3 <= x.len() ==> #[trigger] x.subrange(i, i + 3) != fence(),
    ensures
        sanitize_spec(x) == trim_spec(x),
        sanitize_spec(sanitize_spec(x)) == sanitize_spec(x),
{
    lemma_strip_noop(x, 0);
    assert(x.subrange(0, x.len() as int) =~= x);
    let y = trim_spec(x);
    crate::textutil::lemma_ws_prefix(x);
    crate::textutil::lemma_ws_suffix(x);
    crate::textutil::lemma_trim_bounds(x);
    lemma_trim_clean(x);
    let lo = crate::textutil::ws_prefix_len(x);
    let hi = x.len() - crate::textutil::ws_suffix_len(x);
    if lo == x.len() {
        assert(y =~= Seq::<char>::empty());
        assert(strip_fence_open(y) == y);
        assert(strip_fence_close(y) == y);
        lemma_trim_noop(y);
        lemma_strip_noop(y, 0);
        assert(y.subrange(0, y.len() as int) =~= y);
    } else {
        assert(y == x.subrange(lo, hi));
        assert(!has_prefix(y, fence())) by {
            if has_prefix(y, fence()) {
                assert(x.subrange(lo, lo + 3) =~= y.subrange(0, 3));
            }
        }
        assert(!has_suffix(y, fence())) by {
            if has_suffix(y, fence()) {
                assert(x.subrange(hi - 3, hi - 3 + 3) =~= y.subrange(y.len() - 3, y.len() as int));
            }
        }
        lemma_tagged_fence_prefix(y);
        assert(strip_fence_open(y) == y);
        assert(strip_fence_close(y) == y);
        lemma_trim_noop(y);
        assert(think_free(y)) by {
            assert forall|i: int| !think_match_at(y, i) by {
                if think_match_at(y, i) {
                    assert(open_at(y, i));
                    let k = choose|k: int| i + 7 <= k && close_at(y, k);
                    assert(x.subrange(lo + i, lo + i + 7) =~= y.subrange(i, i + 7));
                    assert(open_at(x, lo + i));
                    assert(x.subrange(lo + k, lo + k + 8) =~= y.subrange(k, k + 8));
                    assert(close_at(x, lo + k));
                    assert(has_close_from(x, lo + i + 7));
                    assert(think_match_at(x, lo + i));
                }
            }
        }
        lemma_sanitize_fixed_point(y);
    }
}

/// On a reply wrapped in exactly one tagged fence pair whose interior holds
/// no further fence and no answered think marker, one pass unwraps and
/// trims the interior, and a second pass changes nothing.
#[verifier::rlimit(60)]
pub proof fn lemma_sanitize_idempotent_fenced(x: Seq<char>)
    requires
        x.len() >= 11,
        has_prefix(x, fence_latex()),
        has_suffix(x, fence()),
        think_free(x),
        forall|i: int|
            8 <= i && i + 3 <= x.len() - 3 ==> #[trigger] x.subrange(i, i + 3) != fence(),
    ensures
        sanitize_spec(x) == trim_spec(x.subrange(8, x.len() - 3)),
        sanitize_spec(sanitize_spec(x)) == sanitize_spec(x),
{
    let body = x.subrange(8, x.len() - 3);
    lemma_strip_noop(x, 0);
    assert(x.subrange(0, x.len() as int) =~= x);
    assert(x[0] == '`' && x[x.len() - 1] == '`') by {
        assert(x.subrange(0, 8)[0] == x[0]);
        assert(x.subrange(x.len() - 3, x.len() as int)[2] == x[x.len() - 1]);
    }
    lemma_trim_noop(x);
    let y1 = x.subrange(8, x.len() as int);
    assert(strip_fence_open(x) == y1);
    assert(has_suffix(y1, fence())) by {
        assert(y1.subrange(y1.len() - 3, y1.len() as int) =~= x.subrange(
            x.len() - 3,
            x.len() as int,
        ));
    }
    assert(strip_fence_close(y1) =~= body);
    let y = trim_spec(body);
    lemma_trim_clean(body);
    crate::textutil::lemma_ws_prefix(body);
    crate::textutil::lemma_ws_suffix(body);
    crate::textutil::lemma_trim_bounds(body);
    let lo = crate::textutil::ws_prefix_len(body);
    let hi = body.len() - crate::textutil::ws_suffix_len(body);
    if lo == body.len() {
        assert(y =~= Seq::<char>::empty());
        assert(strip_fence_open(y) == y);
        assert(strip_fence_close(y) == y);
        lemma_trim_noop(y);
        lemma_strip_noop(y, 0);
        assert(y.subrange(0, y.len() as int) =~= y);
    } else {
        assert(y == body.subrange(lo, hi));
        assert(!has_prefix(y, fence())) by {
            if has_prefix(y, fence()) {
                assert(x.subrange(8 + lo, 8 + lo + 3) =~= y.subrange(0, 3));
            }
        }
        assert(!has_suffix(y, fence())) by {
            if has_suffix(y, fence()) {
                assert(x.subrange(8 + hi - 3, 8 + hi - 3 + 3) =~= y.subrange(
                    y.len() - 3,
                    y.len() as int,
                ));
            }
        }
        lemma_tagged_fence_prefix(y);
        assert(think_free(y)) by {
            assert forall|i: int| !think_match_at(y, i) by {
                if think_match_at(y, i) {
                    let k = choose|k: int| i + 7 <= k && close_at(y, k);
                    assert(x.subrange(8 + lo + i, 8 + lo + i + 7) =~= y.subrange(i, i + 7));
                    assert(open_at(x, 8 + lo + i));
                    assert(x.subrange(8 + lo + k, 8 + lo + k + 8) =~= y.subrange(k, k + 8));
                    assert(close_at(x, 8 + lo + k));
                    assert(has_close_from(x, 8 + lo + i + 7));
                    assert(think_match_at(x, 8 + lo + i));
                }
            }
        }
        lemma_sanitize_fixed_point(y);
    }
}

/// Decide whether the opening marker occurs at character `i`.
fn open_matches(s: &str, i: usize) -> (b: bool)
    requires
        i <= s@.len(),
    ensures
        b == open_at(s@, i as int),
{
    let n: usize = s.unicode_len();
    if n - i < 7 {
        return false;
    }
    let b = s.get_char(i) == '<' && s.get_char(i + 1) == 't' && s.get_char(i + 2) == 'h'
        && s.get_char(i + 3) == 'i' && s.get_char(i + 4) == 'n' && s.get_char(i + 5) == 'k'
        && s.get_char(i + 6) == '>';
    proof {
        let sub = s@.subrange(i as int, i as int + 7);
        if b {
            assert(sub =~= think_open());
        } else {
            if sub == think_open() {
                assert(s@[i as int] == sub[0]);
                assert(s@[i as int + 1] == sub[1]);
                assert(s@[i as int + 2] == sub[2]);
                assert(s@[i as int + 3] == sub[3]);
                assert(s@[i as int + 4] == sub[4]);
                assert(s@[i as int + 5] == sub[5]);
                assert(s@[i as int + 6] == sub[6]);
            }
        }
    }
    b
}

/// Decide whether the closing marker occurs at character `i`.
fn close_matches(s: &str, i: usize) -> (b: bool)
    requires
        i <= s@.len(),
    ensures
        b == close_at(s@, i as int),
{
    let n: usize = s.unicode_len();
    if n - i < 8 {
        return false;
    }
    let b = s.get_char(i) == '<' && s.get_char(i + 1) == '/' && s.get_char(i + 2) == 't'
        && s.get_char(i + 3) == 'h' && s.get_char(i + 4) == 'i' && s.get_char(i + 5) == 'n'
        && s.get_char(i + 6) == 'k' && s.get_char(i + 7) == '>';
    proof {
        let sub = s@.subrange(i as int, i as int + 8);
        if b {
            assert(sub =~= think_close());
        } else {
            if sub == think_close() {
                assert(s@[i as int] == sub[0]);
                assert(s@[i as int + 1] == sub[1]);
                assert(s@[i as int + 2] == sub[2]);
                assert(s@[i as int + 3] == sub[3]);
                assert(s@[i as int + 4] == sub[4]);
                assert(s@[i as int + 5] == sub[5]);
                assert(s@[i as int + 6] == sub[6]);
                assert(s@[i as int + 7] == sub[7]);
            }
        }
    }
    b
}

/// Find the nearest closing marker at or after `from`.
fn find_close(s: &str, from: usize) -> (r: Option<usize>)
    requires
        from <= s@.len(),
    ensures
        r matches Some(j) ==> from <= j && close_at(s@, j as int) && (forall|k: int|
            from <= k < j ==> !close_at(s@, k)),
        r is None ==> !has_close_from(s@, from as int),
{
    let n: usize = s.unicode_len();
    let mut j: usize = from;
    while j < n
        invariant
            from <= j <= n,
            n == s@.len(),
            forall|k: int| from <= k < j ==> !close_at(s@, k),
        decreases n - j,
    {
        if close_matches(s, j) {
            return Some(j);
        }
        j = j + 1;
    }
    proof {
        assert forall|k: int| from <= k implies !close_at(s@, k) by {
            if k < n {
            } else {
                assert(k + 8 > s@.len());
            }
        }
    }
    None
}

/// Remove every matched `<think>`…`</think>` block from `s`.
pub fn strip_think_str(s: &str) -> (r: String)
    ensures
        r@ == strip_think(s@),
{
    let n: usize = s.unicode_len();
    let mut out = String::new();
    let mut seg: usize = 0;
    let mut i: usize = 0;
    proof {
        assert(out@ + s@.subrange(0, 0) + strip_from(s@, 0) =~= strip_from(s@, 0));
    }
    while i < n
        invariant
            0 <= seg <= i <= n,
            n == s@.len(),
            out@ + s@.subrange(seg as int, i as int) + strip_from(s@, i as int) == strip_from(
                s@,
                0,
            ),
        decreases n - i,
    {
        let mut jump: usize = 0;
        let mut matched = false;
        if open_matches(s, i) {
            match find_close(s, i + 7) {
                Some(j) => {
                    jump = j;
                    matched = true;
                },
                None => {},
            }
        }
        if matched {
            proof {
                assert(think_match_at(s@, i as int));
                assert(strip_from(s@, i as int) == skip_to_close(s@, i as int + 7));
                lemma_skip_to_close(s@, i as int + 7, jump as int);
            }
            let piece = s.substring_char(seg, i);
            out.append(piece);
            i = jump + 8;
            seg = i;
            proof {
                assert(out@ + s@.subrange(seg as int, i as int) + strip_from(s@, i as int)
                    =~= strip_from(s@, 0));
            }
        } else {
            proof {
                assert(!think_match_at(s@, i as int));
                assert(strip_from(s@, i as int) == seq![s@[i as int]] + strip_from(
                    s@,
                    i as int + 1,
                ));
                assert(s@.subrange(seg as int, i as int + 1) =~= s@.subrange(
                    seg as int,
                    i as int,
                ) + seq![s@[i as int]]);
            }
            i = i + 1;
        }
    }
    let piece = s.substring_char(seg, n);
    out.append(piece);
    proof {
        assert(strip_from(s@, n as int) =~= Seq::<char>::empty());
        assert(out@ =~= strip_from(s@, 0));
    }
    out
}

/// Sanitize raw model output: drop hidden think blocks, trim, strip one
/// wrapping fence pair, trim again.
pub fn clean_output(s: &str) -> (r: String)
    ensures
        r@ == sanitize_spec(s@),
{
    let stripped = strip_think_str(s);
    let trimmed = trim_str(stripped.as_str());
    proof {
        reveal_strlit("```latex");
        reveal_strlit("```tex");
        reveal_strlit("```");
        assert("```latex"@ =~= fence_latex());
        assert("```tex"@ =~= fence_tex());
        assert("```"@ =~= fence());
    }
    let t_len: usize = trimmed.as_str().unicode_len();
    let after_open: String = if str_has_prefix(trimmed.as_str(), "```latex") {
        String::from_str(trimmed.as_str().substring_char(8, t_len))
    } else if str_has_prefix(trimmed.as_str(), "```tex") {
        String::from_str(trimmed.as_str().substring_char(6, t_len))
    } else if str_has_prefix(trimmed.as_str(), "```") {
        String::from_str(trimmed.as_str().substring_char(3, t_len))
    } else {
        trimmed
    };
    let o_len: usize = after_open.as_str().unicode_len();
    let after_close: String = if str_has_suffix(after_open.as_str(), "```") {
        String::from_str(after_open.as_str().substring_char(0, o_len - 3))
    } else {
        after_open
    };
    trim_str(after_close.as_str())
}

} // verus!
