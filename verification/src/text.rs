//! Normalization of breadcrumb text: newline removal, trimming, joining.

use vstd::prelude::*;
use crate::bindings::chars_to_string;

verus! {

/// A character counts as whitespace exactly when `char::is_whitespace`
/// says so: the Unicode `White_Space` set.
pub open spec fn is_ws(c: char) -> bool {
    c == ' ' || c == '\t' || c == '\n' || c == '\r' || c == '\u{0B}' || c == '\u{0C}'
        || c == '\u{85}' || c == '\u{A0}' || c == '\u{1680}'
        || ('\u{2000}' <= c && c <= '\u{200A}')
        || c == '\u{2028}' || c == '\u{2029}' || c == '\u{202F}' || c == '\u{205F}'
        || c == '\u{3000}'
}

/// Whether `c` is whitespace, as `is_ws` states.
pub fn is_ws_char(c: char) -> (r: bool)
    ensures
        r == is_ws(c),
{
    c == ' ' || c == '\t' || c == '\n' || c == '\r' || c == '\u{0B}' || c == '\u{0C}'
        || c == '\u{85}' || c == '\u{A0}' || c == '\u{1680}'
        || ('\u{2000}' <= c && c <= '\u{200A}')
        || c == '\u{2028}' || c == '\u{2029}' || c == '\u{202F}' || c == '\u{205F}'
        || c == '\u{3000}'
}

/// The text with every newline character removed.
pub open spec fn strip_newlines(s: Seq<char>) -> Seq<char>
    decreases s.len(),
{
    if s.len() == 0 {
        Seq::empty()
    } else if s.last() == '\n' {
        strip_newlines(s.drop_last())
    } else {
        strip_newlines(s.drop_last()).push(s.last())
    }
}

/// The text with leading and trailing whitespace removed.
pub open spec fn trimmed(s: Seq<char>) -> Seq<char>
    decreases s.len(),
{
    if s.len() > 0 && is_ws(s.first()) {
        trimmed(s.drop_first())
    } else if s.len() > 0 && is_ws(s.last()) {
        trimmed(s.drop_last())
    } else {
        s
    }
}

/// A breadcrumb entry as it is published: newlines removed, then the ends
/// trimmed.
pub open spec fn cleaned(s: Seq<char>) -> Seq<char> {
    trimmed(strip_newlines(s))
}

/// Every entry normalized, as `cleaned` states.
pub open spec fn cleaned_all(entries: Seq<Seq<char>>) -> Seq<Seq<char>> {
    entries.map_values(|t: Seq<char>| cleaned(t))
}

/// The entries joined with a comma and a space; empty when there are none.
pub open spec fn joined(parts: Seq<Seq<char>>) -> Seq<char>
    decreases parts.len(),
{
    if parts.len() == 0 {
        Seq::empty()
    } else if parts.len() == 1 {
        parts[0]
    } else {
        joined(parts.drop_last()) + ", "@ + parts.last()
    }
}

/// With no category entries, the joined category text is empty.
pub proof fn lemma_joined_empty()
    ensures
        joined(Seq::<Seq<char>>::empty()) == Seq::<char>::empty(),
{
}

/// When every character is whitespace, trimming leaves nothing.
proof fn lemma_trimmed_all_ws(s: Seq<char>)
    requires
        forall|j: int| 0 <= j < s.len() ==> is_ws(s[j]),
    ensures
        trimmed(s) == Seq::<char>::empty(),
    decreases s.len(),
{
    if s.len() > 0 {
        lemma_trimmed_all_ws(s.drop_first());
    } else {
        assert(s =~= Seq::<char>::empty());
    }
}

/// Trimming keeps exactly the span from the first to the last
/// non-whitespace character.
proof fn lemma_trimmed_span(s: Seq<char>, a: int, b: int)
    requires
        0 <= a <= b <= s.len(),
        forall|j: int| 0 <= j < a ==> is_ws(s[j]),
        forall|j: int| b <= j < s.len() ==> is_ws(s[j]),
        a < b ==> !is_ws(s[a]) && !is_ws(s[b - 1]),
    ensures
        trimmed(s) == s.subrange(a, b),
    decreases s.len(),
{
    if a == b {
        lemma_trimmed_all_ws(s);
        assert(s.subrange(a, b) =~= Seq::<char>::empty());
    } else if a > 0 {
        lemma_trimmed_span(s.drop_first(), a - 1, b - 1);
        assert(s.drop_first().subrange(a - 1, b - 1) =~= s.subrange(a, b));
    } else if b < s.len() {
        lemma_trimmed_span(s.drop_last(), a, b);
        assert(s.drop_last().subrange(a, b) =~= s.subrange(a, b));
    } else {
        assert(s.subrange(0, s.len() as int) =~= s);
    }
}

/// One category entry, normalized: every newline removed, then leading and
/// trailing whitespace trimmed away.
pub fn clean_entry(s: &str) -> (r: String)
    ensures
        r@ == cleaned(s@),
{
    let n: usize = s.unicode_len();
    let mut kept: Vec<char> = Vec::new();
    let mut i: usize = 0;
    while i < n
        invariant
            n == s@.len(),
            i <= n,
            kept@ == strip_newlines(s@.subrange(0, i as int)),
        decreases n - i,
    {
        let c = s.get_char(i);
        proof {
            assert(s@.subrange(0, i + 1).drop_last() =~= s@.subrange(0, i as int));
            assert(s@.subrange(0, i + 1).last() == s@[i as int]);
        }
        if c != '\n' {
            kept.push(c);
        }
        i = i + 1;
    }
    proof {
        assert(s@.subrange(0, n as int) =~= s@);
    }
    let mut a: usize = 0;
    while a < kept.len() && is_ws_char(kept[a])
        invariant
            a <= kept@.len(),
            forall|j: int| 0 <= j < a ==> is_ws(kept@[j]),
        decreases kept@.len() - a,
    {
        a = a + 1;
    }
    let mut b: usize = kept.len();
    while b > a && is_ws_char(kept[b - 1])
        invariant
            a <= b <= kept@.len(),
            forall|j: int| b <= j < kept@.len() ==> is_ws(kept@[j]),
        decreases b,
    {
        b = b - 1;
    }
    let mut out: Vec<char> = Vec::new();
    let mut k: usize = a;
    while k < b
        invariant
            a <= k <= b <= kept@.len(),
            out@ == kept@.subrange(a as int, k as int),
        decreases b - k,
    {
        out.push(kept[k]);
        proof {
            assert(kept@.subrange(a as int, k + 1) =~= kept@.subrange(a as int, k as int).push(
                kept@[k as int],
            ));
        }
        k = k + 1;
    }
    proof {
        lemma_trimmed_span(kept@, a as int, b as int);
    }
    chars_to_string(out)
}

/// Every entry of the sequence, normalized as `cleaned` states.
pub fn clean_entries(raw: &Vec<String>) -> (r: Vec<String>)
    ensures
        r@.len() == raw@.len(),
        forall|i: int| 0 <= i < raw@.len() ==> r@[i]@ == cleaned(raw@[i]@),
{
    let mut out: Vec<String> = Vec::new();
    let mut i: usize = 0;
    while i < raw.len()
        invariant
            i <= raw@.len(),
            out@.len() == i,
            forall|j: int| 0 <= j < i ==> out@[j]@ == cleaned(raw@[j]@),
        decreases raw@.len() - i,
    {
        out.push(clean_entry(raw[i].as_str()));
        i = i + 1;
    }
    out
}

/// The entries joined with the literal separator `", "`, as `joined` states.
pub fn join_entries(parts: &Vec<String>) -> (r: String)
    ensures
        r@ == joined(parts.deep_view()),
{
    let mut r = String::new();
    let mut i: usize = 0;
    while i < parts.len()
        invariant
            i <= parts@.len(),
            parts.deep_view().len() == parts@.len(),
            r@ == joined(parts.deep_view().subrange(0, i as int)),
        decreases parts@.len() - i,
    {
        if i > 0 {
            r.append(", ");
        }
        r.append(parts[i].as_str());
        proof {
            let dv = parts.deep_view();
            assert(dv[i as int] == parts@[i as int]@);
            assert(dv.subrange(0, i + 1).drop_last() =~= dv.subrange(0, i as int));
            assert(dv.subrange(0, i + 1).last() == dv[i as int]);
            if i == 0 {
                assert(joined(dv.subrange(0, 1)) == dv.subrange(0, 1)[0]);
            }
        }
        i = i + 1;
    }
    proof {
        assert(parts.deep_view().subrange(0, parts@.len() as int) =~= parts.deep_view());
    }
    r
}

} // verus!
