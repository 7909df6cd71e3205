//! Text primitives: white space, trimming and the order of identifiers.

use vstd::prelude::*;
use vstd::std_specs::iter::IteratorSpec;

verus! {

/// Whether `c` counts as white space: the Unicode property `White_Space`.
pub open spec fn is_white_space(c: char) -> bool {
    let n = c as u32;
    (0x09 <= n && n <= 0x0D) || n == 0x20 || n == 0x85 || n == 0xA0 || n == 0x1680 || (0x2000 <= n
        && n <= 0x200A) || n == 0x2028 || n == 0x2029 || n == 0x202F || n == 0x205F || n == 0x3000
}

/// Number of white-space characters at the front of `s`.
pub open spec fn leading_white(s: Seq<char>) -> int
    decreases s.len(),
{
    if s.len() > 0 && is_white_space(s[0]) {
        1 + leading_white(s.drop_first())
    } else {
        0
    }
}

/// Index just past the last character of `s` that is not white space,
/// or 0 where `s` holds none.
pub open spec fn content_end(s: Seq<char>) -> int
    decreases s.len(),
{
    if s.len() > 0 && is_white_space(s.last()) {
        content_end(s.drop_last())
    } else {
        s.len() as int
    }
}

/// `s` without the white space at its two ends.
pub open spec fn trimmed(s: Seq<char>) -> Seq<char> {
    let from = leading_white(s);
    let to = content_end(s);
    if from <= to {
        s.subrange(from, to)
    } else {
        Seq::empty()
    }
}

/// `a` comes before `b` in the order of identifiers: the first character in
/// which they differ is smaller in `a` by its code point, or `a` is a proper
/// prefix of `b`. This is the order in which `str` compares.
pub open spec fn lex_less(a: Seq<char>, b: Seq<char>) -> bool
    decreases a.len(),
{
    if b.len() == 0 {
        false
    } else if a.len() == 0 {
        true
    } else if a[0] != b[0] {
        (a[0] as u32) < (b[0] as u32)
    } else {
        lex_less(a.drop_first(), b.drop_first())
    }
}

/// How one text stands to another in the order of identifiers.
#[derive(Clone, Copy, Debug, PartialEq, Eq, Structural)]
pub enum TextOrder {
    Before,
    Same,
    After,
}

/// The place of `a` relative to `b`.
pub open spec fn text_order(a: Seq<char>, b: Seq<char>) -> TextOrder {
    if a == b {
        TextOrder::Same
    } else if lex_less(a, b) {
        TextOrder::Before
    } else {
        TextOrder::After
    }
}

/// The view of a text that may be absent.
pub open spec fn optional_text(s: Option<&str>) -> Option<Seq<char>> {
    match s {
        Some(text) => Some(text@),
        None => None,
    }
}

/// The view of a string that may be absent.
pub open spec fn optional_string(s: Option<String>) -> Option<Seq<char>> {
    match s {
        Some(text) => Some(text@),
        None => None,
    }
}

/// What `leading_white` counts: every character before it is white space,
/// and the one at it, if any, is not.
pub proof fn lemma_leading_white(s: Seq<char>)
    ensures
        0 <= leading_white(s) <= s.len(),
        forall|i: int| 0 <= i < leading_white(s) ==> is_white_space(#[trigger] s[i]),
        leading_white(s) < s.len() ==> !is_white_space(s[leading_white(s)]),
    decreases s.len(),
{
    if s.len() > 0 && is_white_space(s[0]) {
        let rest = s.drop_first();
        lemma_leading_white(rest);
        assert forall|i: int| 0 <= i < leading_white(s) implies is_white_space(#[trigger] s[i]) by {
            if i > 0 {
                assert(s[i] == rest[i - 1]);
            }
        }
        if leading_white(s) < s.len() {
            assert(s[leading_white(s)] == rest[leading_white(rest)]);
        }
    }
}

/// What `content_end` marks: every character from it on is white space,
/// and the one before it, if any, is not.
pub proof fn lemma_content_end(s: Seq<char>)
    ensures
        0 <= content_end(s) <= s.len(),
        forall|i: int| content_end(s) <= i < s.len() ==> is_white_space(#[trigger] s[i]),
        content_end(s) > 0 ==> !is_white_space(s[content_end(s) - 1]),
    decreases s.len(),
{
    if s.len() > 0 && is_white_space(s.last()) {
        let rest = s.drop_last();
        lemma_content_end(rest);
        assert forall|i: int| content_end(s) <= i < s.len() implies is_white_space(
            #[trigger] s[i],
        ) by {
            if i < s.len() - 1 {
                assert(s[i] == rest[i]);
            }
        }
        if content_end(s) > 0 {
            assert(s[content_end(s) - 1] == rest[content_end(rest) - 1]);
        }
    }
}

/// A trimmed text neither starts nor ends in white space, and trimming it
/// again changes nothing.
pub proof fn lemma_trimmed_is_trim(s: Seq<char>)
    ensures
        trimmed(s).len() > 0 ==> !is_white_space(trimmed(s).first()) && !is_white_space(
            trimmed(s).last(),
        ),
        trimmed(s).len() == 0 <==> (forall|i: int| 0 <= i < s.len() ==> is_white_space(
            #[trigger] s[i],
        )),
        trimmed(trimmed(s)) == trimmed(s),
{
    lemma_leading_white(s);
    lemma_content_end(s);
    let from = leading_white(s);
    let to = content_end(s);
    let t = trimmed(s);
    if from < to {
        assert(t.first() == s[from]);
        assert(t.last() == s[to - 1]);
        assert(leading_white(t) == 0);
        assert(content_end(t) == t.len());
        assert(t.subrange(0, t.len() as int) == t);
    } else {
        assert(t.len() == 0);
        if from < s.len() {
            assert(to > from) by {
                if to <= from {
                    assert(is_white_space(s[from]));
                }
            }
        }
        assert(leading_white(t) == 0);
        assert(content_end(t) == 0);
        assert(t.subrange(0, 0) == t);
    }
    if forall|i: int| 0 <= i < s.len() ==> is_white_space(#[trigger] s[i]) {
        if from < to {
            assert(is_white_space(s[from]));
        }
    }
}

/// No text comes before itself.
pub proof fn lemma_lex_irreflexive(a: Seq<char>)
    ensures
        !lex_less(a, a),
    decreases a.len(),
{
    if a.len() > 0 {
        lemma_lex_irreflexive(a.drop_first());
    }
}

/// Of two different texts exactly one comes before the other.
pub proof fn lemma_lex_total(a: Seq<char>, b: Seq<char>)
    ensures
        a != b ==> (lex_less(a, b) != lex_less(b, a)),
        a == b ==> !lex_less(a, b) && !lex_less(b, a),
    decreases a.len(),
{
    if a == b {
        lemma_lex_irreflexive(a);
    } else if a.len() > 0 && b.len() > 0 {
        if a[0] == b[0] {
            let ra = a.drop_first();
            let rb = b.drop_first();
            if ra == rb {
                assert(a =~= seq![a[0]] + ra);
                assert(b =~= seq![b[0]] + rb);
            }
            lemma_lex_total(ra, rb);
        } else {
            vstd::utf8::char_u32_cast(a[0], a[0] as u32);
            vstd::utf8::char_u32_cast(b[0], b[0] as u32);
        }
    } else if a.len() == 0 && b.len() == 0 {
        assert(a =~= b);
    }
}

/// The order of identifiers is transitive.
pub proof fn lemma_lex_transitive(a: Seq<char>, b: Seq<char>, c: Seq<char>)
    requires
        lex_less(a, b),
        lex_less(b, c),
    ensures
        lex_less(a, c),
    decreases a.len(),
{
    if a.len() > 0 && b.len() > 0 && c.len() > 0 {
        if a[0] == b[0] && b[0] == c[0] {
            lemma_lex_transitive(a.drop_first(), b.drop_first(), c.drop_first());
        }
    }
}

/// Whether `c` is white space.
pub fn white_space(c: char) -> (r: bool)
    ensures
        r == is_white_space(c),
{
    let n: u32 = c as u32;
    (0x09 <= n && n <= 0x0D) || n == 0x20 || n == 0x85 || n == 0xA0 || n == 0x1680 || (0x2000 <= n
        && n <= 0x200A) || n == 0x2028 || n == 0x2029 || n == 0x202F || n == 0x205F || n == 0x3000
}

/// Compares two texts in the order of identifiers, in one pass over both.
pub fn compare_text(a: &str, b: &str) -> (r: TextOrder)
    ensures
        r == text_order(a@, b@),
{
    broadcast use vstd::string::group_string_axioms;

    let mut ia = a.chars();
    let mut ib = b.chars();
    let ghost mut k: int = 0;
    loop
        invariant
            0 <= k <= a@.len(),
            k <= b@.len(),
            a@.subrange(0, k) == b@.subrange(0, k),
            ia.remaining() == a@.subrange(k, a@.len() as int),
            ib.remaining() == b@.subrange(k, b@.len() as int),
            lex_less(a@, b@) == lex_less(ia.remaining(), ib.remaining()),
            lex_less(b@, a@) == lex_less(ib.remaining(), ia.remaining()),
            ia.decrease() is Some,
        decreases ia.decrease()->0,
    {
        let ghost ra = ia.remaining();
        let ghost rb = ib.remaining();
        let x = ia.next();
        let y = ib.next();
        match (x, y) {
            (None, None) => {
                proof {
                    assert(a@ =~= a@.subrange(0, k));
                    assert(b@ =~= b@.subrange(0, k));
                }
                return TextOrder::Same;
            },
            (None, Some(_)) => {
                return TextOrder::Before;
            },
            (Some(_), None) => {
                return TextOrder::After;
            },
            (Some(c), Some(d)) => {
                proof {
                    assert(ra[0] == a@[k]);
                    assert(rb[0] == b@[k]);
                }
                if c != d {
                    proof {
                        assert(a@[k] != b@[k]);
                        lemma_lex_total(ra, rb);
                    }
                    if (c as u32) < (d as u32) {
                        return TextOrder::Before;
                    } else {
                        return TextOrder::After;
                    }
                }
                proof {
                    assert(a@.subrange(0, k + 1) =~= a@.subrange(0, k).push(a@[k]));
                    assert(b@.subrange(0, k + 1) =~= b@.subrange(0, k).push(b@[k]));
                    assert(ra.drop_first() =~= a@.subrange(k + 1, a@.len() as int));
                    assert(rb.drop_first() =~= b@.subrange(k + 1, b@.len() as int));
                    k = k + 1;
                }
            },
        }
    }
}

/// A string that may be absent, borrowed as text.
pub fn as_optional_text(s: &Option<String>) -> (r: Option<&str>)
    ensures
        optional_text(r) == optional_string(*s),
{
    match s {
        Some(text) => Some(text.as_str()),
        None => None,
    }
}

/// Whether two texts are the same.
pub fn same_text(a: &str, b: &str) -> (r: bool)
    ensures
        r == (a@ == b@),
{
    match compare_text(a, b) {
        TextOrder::Same => true,
        _ => false,
    }
}

/// `s` without the white space at its two ends. The ends are found in one
/// pass over the characters of `s`.
pub fn trim(s: &str) -> (r: &str)
    ensures
        r@ == trimmed(s@),
{
    broadcast use vstd::string::group_string_axioms;

    let mut it = s.chars();
    let mut seen: usize = 0;
    let mut from: usize = 0;
    let mut to: usize = 0;
    let mut in_front: bool = true;
    let n: usize = s.unicode_len();
    loop
        invariant
            n == s@.len(),
            seen <= n,
            it.remaining() == s@.subrange(seen as int, n as int),
            to <= seen,
            to as int == content_end(s@.subrange(0, seen as int)),
            in_front ==> from == seen && forall|i: int|
                0 <= i < seen ==> is_white_space(#[trigger] s@[i]),
            !in_front ==> from < seen && !is_white_space(s@[from as int]) && forall|i: int|
                0 <= i < from ==> is_white_space(#[trigger] s@[i]),
            it.decrease() is Some,
        ensures
            seen == n,
            to as int == content_end(s@),
            from <= n,
            forall|i: int| 0 <= i < from ==> is_white_space(#[trigger] s@[i]),
            from < n ==> !is_white_space(s@[from as int]),
        decreases it.decrease()->0,
    {
        let ghost rest = it.remaining();
        match it.next() {
            None => {
                proof {
                    assert(s@.subrange(0, seen as int) =~= s@);
                }
                break ;
            },
            Some(c) => {
                proof {
                    assert(rest[0] == s@[seen as int]);
                    assert(rest.drop_first() =~= s@.subrange(seen as int + 1, n as int));
                    let before = s@.subrange(0, seen as int);
                    let now = s@.subrange(0, seen as int + 1);
                    assert(now.last() == c);
                    assert(now.drop_last() =~= before);
                }
                let white = white_space(c);
                if !white {
                    if in_front {
                        from = seen;
                        in_front = false;
                    }
                    to = seen + 1;
                } else if in_front {
                    from = seen + 1;
                }
                seen = seen + 1;
            },
        }
    }
    proof {
        lemma_leading_white(s@);
        lemma_content_end(s@);
        let lead = leading_white(s@);
        if lead < from as int {
            assert(is_white_space(s@[lead]));
        }
        if (from as int) < lead {
            assert(is_white_space(s@[from as int]));
        }
        assert(from as int == lead);
    }
    if from <= to {
        s.substring_char(from, to)
    } else {
        proof {
            assert(s@.subrange(0, 0) =~= Seq::<char>::empty());
        }
        s.substring_char(0, 0)
    }
}

} // verus!
