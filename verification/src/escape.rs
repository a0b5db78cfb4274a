//! Escaping of reserved markup characters.

use vstd::prelude::*;
use vstd::string::StringExecFns;
use crate::strings::lemma_replaced_absent;
use crate::strings::lemma_replaced_concat;
use crate::strings::lemma_replaced_single;
use crate::strings::occurs_at;
use crate::strings::replaced;
use crate::strings::starts_with;

verus! {

/// What one character becomes when it is embedded in markup: its entity if it
/// is one of the five reserved characters, itself otherwise.
pub open spec fn entity(c: char) -> Seq<char> {
    if c == '&' {
        "&amp;"@
    } else if c == '<' {
        "&lt;"@
    } else if c == '>' {
        "&gt;"@
    } else if c == '"' {
        "&quot;"@
    } else if c == '\'' {
        "&apos;"@
    } else {
        seq![c]
    }
}

/// The escaped form of a text: every character replaced by its `entity`.
pub open spec fn escaped(s: Seq<char>) -> Seq<char>
    decreases s.len(),
{
    if s.len() == 0 {
        Seq::empty()
    } else {
        escaped(s.drop_last()) + entity(s.last())
    }
}

/// Escapes the five reserved markup characters of `s`. None of `<`, `>`, `"`
/// and `'` is left in the result, every `&` in it opens an entity, and read
/// back it is `s`: each character was escaped once.
pub fn escape_xml(s: &str) -> (out: String)
    ensures
        out@ == escaped(s@),
        forall|i: int|
            0 <= i < out@.len() ==> {
                let c = #[trigger] out@[i];
                c != '<' && c != '>' && c != '"' && c != '\''
            },
        forall|i: int| 0 <= i < out@.len() && #[trigger] out@[i] == '&' ==> entity_at(out@, i),
        unescaped(out@) == s@,
{
    let mut out = String::new();
    let chars = s.chars();
    for c in it: chars
        invariant
            it.seq() == s@,
            out@ == escaped(s@.take(it.index() as int)),
    {
        proof {
            let k = it.index() as int;
            assert(s@.take(k + 1).drop_last() =~= s@.take(k));
        }
        if c == '&' {
            out.append("&amp;");
        } else if c == '<' {
            out.append("&lt;");
        } else if c == '>' {
            out.append("&gt;");
        } else if c == '"' {
            out.append("&quot;");
        } else if c == '\'' {
            out.append("&apos;");
        } else {
            out.push(c);
        }
    }
    proof {
        assert(s@.take(s@.len() as int) =~= s@);
        lemma_escaped_is_safe(s@);
        lemma_unescaped_escaped(s@);
    }
    out
}

/// Whether `c` is one of the five characters that markup reserves.
pub open spec fn is_reserved(c: char) -> bool {
    c == '&' || c == '<' || c == '>' || c == '"' || c == '\''
}

/// Whether `e` is one of the five entities.
pub open spec fn is_entity(e: Seq<char>) -> bool {
    e == "&amp;"@ || e == "&lt;"@ || e == "&gt;"@ || e == "&quot;"@ || e == "&apos;"@
}

/// Whether one of the five entities stands in `t` from position `i` on.
pub open spec fn entity_at(t: Seq<char>, i: int) -> bool {
    ||| occurs_at(t, i, "&amp;"@)
    ||| occurs_at(t, i, "&lt;"@)
    ||| occurs_at(t, i, "&gt;"@)
    ||| occurs_at(t, i, "&quot;"@)
    ||| occurs_at(t, i, "&apos;"@)
}

/// The five entities, character by character.
pub proof fn lemma_entities()
    ensures
        "&amp;"@ == seq!['&', 'a', 'm', 'p', ';'],
        "&lt;"@ == seq!['&', 'l', 't', ';'],
        "&gt;"@ == seq!['&', 'g', 't', ';'],
        "&quot;"@ == seq!['&', 'q', 'u', 'o', 't', ';'],
        "&apos;"@ == seq!['&', 'a', 'p', 'o', 's', ';'],
{
    reveal_strlit("&amp;");
    reveal_strlit("&lt;");
    reveal_strlit("&gt;");
    reveal_strlit("&quot;");
    reveal_strlit("&apos;");
}

/// What `entity` gives: an entity for a reserved character, and nothing
/// reserved in it but the ampersand that opens an entity.
pub proof fn lemma_entity_shape(c: char)
    ensures
        entity(c).len() >= 1,
        is_reserved(c) ==> is_entity(entity(c)) && entity(c)[0] == '&',
        !is_reserved(c) ==> entity(c) == seq![c],
        forall|j: int| 1 <= j < entity(c).len() ==> !is_reserved(#[trigger] entity(c)[j]),
{
    lemma_entities();
}

/// Escaping goes through a text piece by piece.
pub proof fn lemma_escaped_concat(a: Seq<char>, b: Seq<char>)
    ensures
        escaped(a + b) == escaped(a) + escaped(b),
    decreases b.len(),
{
    if b.len() > 0 {
        lemma_escaped_concat(a, b.drop_last());
        assert((a + b).drop_last() =~= a + b.drop_last());
    }
}

/// The escaped form, read from the front.
pub proof fn lemma_escaped_front(s: Seq<char>)
    requires
        s.len() > 0,
    ensures
        escaped(s) == entity(s[0]) + escaped(s.drop_first()),
{
    let head = seq![s[0]];
    assert(s =~= head + s.drop_first());
    lemma_escaped_concat(head, s.drop_first());
    assert(head.drop_last() =~= Seq::<char>::empty());
    assert(escaped(Seq::<char>::empty()) =~= Seq::<char>::empty());
}

/// In an escaped text none of `<`, `>`, `"` and `'` is left, and every `&`
/// opens one of the five entities.
pub proof fn lemma_escaped_is_safe(s: Seq<char>)
    ensures
        forall|i: int|
            0 <= i < escaped(s).len() ==> {
                let c = #[trigger] escaped(s)[i];
                c != '<' && c != '>' && c != '"' && c != '\''
            },
        forall|i: int|
            0 <= i < escaped(s).len() && #[trigger] escaped(s)[i] == '&' ==> entity_at(
                escaped(s),
                i,
            ),
    decreases s.len(),
{
    if s.len() > 0 {
        let init = escaped(s.drop_last());
        let e = entity(s.last());
        let t = escaped(s);
        lemma_escaped_is_safe(s.drop_last());
        lemma_entity_shape(s.last());
        assert forall|i: int| 0 <= i < t.len() && #[trigger] t[i] == '&' implies entity_at(
            t,
            i,
        ) by {
            if i < init.len() {
                assert forall|p: Seq<char>| occurs_at(init, i, p) implies occurs_at(t, i, p) by {
                    assert(t.subrange(i, i + p.len()) =~= init.subrange(i, i + p.len()));
                }
            } else {
                assert(t.subrange(i, i + e.len()) =~= e);
            }
        }
    }
}

/// The text that an escaped text stands for: each entity read back as its
/// character, from the front.
pub open spec fn unescaped(t: Seq<char>) -> Seq<char>
    decreases t.len(),
    via unescaped_decreases
{
    if t.len() == 0 {
        Seq::empty()
    } else if starts_with(t, "&amp;"@) {
        seq!['&'] + unescaped(t.skip(5))
    } else if starts_with(t, "&lt;"@) {
        seq!['<'] + unescaped(t.skip(4))
    } else if starts_with(t, "&gt;"@) {
        seq!['>'] + unescaped(t.skip(4))
    } else if starts_with(t, "&quot;"@) {
        seq!['"'] + unescaped(t.skip(6))
    } else if starts_with(t, "&apos;"@) {
        seq!['\''] + unescaped(t.skip(6))
    } else {
        seq![t[0]] + unescaped(t.drop_first())
    }
}

#[via_fn]
proof fn unescaped_decreases(t: Seq<char>) {
    lemma_entities();
}

/// Reading an escaped text back gives the text that was escaped: every
/// character was escaped once, the ampersands of the entities not again.
pub proof fn lemma_unescaped_escaped(s: Seq<char>)
    ensures
        unescaped(escaped(s)) == s,
    decreases s.len(),
{
    if s.len() > 0 {
        let c = s[0];
        let e = entity(c);
        let rest = escaped(s.drop_first());
        let t = e + rest;
        lemma_entities();
        lemma_escaped_front(s);
        lemma_unescaped_escaped(s.drop_first());
        assert(t.skip(e.len() as int) =~= rest);
        assert(t.subrange(0, e.len() as int) =~= e);
        if is_reserved(c) {
            assert(starts_with(t, e));
        } else {
            assert(t.drop_first() =~= rest);
        }
    }
}

/// The five replacements made one after the other, the ampersand first.
pub open spec fn replaced_in_turn(s: Seq<char>) -> Seq<char> {
    replaced(
        replaced(
            replaced(replaced(replaced(s, '&', "&amp;"@), '<', "&lt;"@), '>', "&gt;"@),
            '"',
            "&quot;"@,
        ),
        '\'',
        "&apos;"@,
    )
}

/// The five replacements in turn make of one character its entity.
proof fn lemma_replaced_in_turn_single(c: char)
    ensures
        replaced_in_turn(seq![c]) == entity(c),
{
    lemma_entities();
    let x1 = replaced(seq![c], '&', "&amp;"@);
    let x2 = replaced(x1, '<', "&lt;"@);
    let x3 = replaced(x2, '>', "&gt;"@);
    let x4 = replaced(x3, '"', "&quot;"@);
    lemma_replaced_single(c, '&', "&amp;"@);
    if c == '&' {
        lemma_replaced_absent(x1, '<', "&lt;"@);
    } else {
        lemma_replaced_single(c, '<', "&lt;"@);
    }
    if c == '&' || c == '<' {
        lemma_replaced_absent(x2, '>', "&gt;"@);
    } else {
        lemma_replaced_single(c, '>', "&gt;"@);
    }
    if c == '&' || c == '<' || c == '>' {
        lemma_replaced_absent(x3, '"', "&quot;"@);
    } else {
        lemma_replaced_single(c, '"', "&quot;"@);
    }
    if c == '&' || c == '<' || c == '>' || c == '"' {
        lemma_replaced_absent(x4, '\'', "&apos;"@);
    } else {
        lemma_replaced_single(c, '\'', "&apos;"@);
    }
}

/// The five replacements in turn go through a text piece by piece.
proof fn lemma_replaced_in_turn_concat(a: Seq<char>, b: Seq<char>)
    ensures
        replaced_in_turn(a + b) == replaced_in_turn(a) + replaced_in_turn(b),
{
    let a1 = replaced(a, '&', "&amp;"@);
    let b1 = replaced(b, '&', "&amp;"@);
    lemma_replaced_concat(a, b, '&', "&amp;"@);
    let a2 = replaced(a1, '<', "&lt;"@);
    let b2 = replaced(b1, '<', "&lt;"@);
    lemma_replaced_concat(a1, b1, '<', "&lt;"@);
    let a3 = replaced(a2, '>', "&gt;"@);
    let b3 = replaced(b2, '>', "&gt;"@);
    lemma_replaced_concat(a2, b2, '>', "&gt;"@);
    let a4 = replaced(a3, '"', "&quot;"@);
    let b4 = replaced(b3, '"', "&quot;"@);
    lemma_replaced_concat(a3, b3, '"', "&quot;"@);
    lemma_replaced_concat(a4, b4, '\'', "&apos;"@);
}

/// Escaping is the five replacements made in turn: `&` first, then `<`, `>`,
/// `"` and `'`. With the ampersand first, its replacement never meets the
/// ampersand of an entity that another replacement wrote.
pub proof fn lemma_escaped_is_replaced_in_turn(s: Seq<char>)
    ensures
        escaped(s) == replaced_in_turn(s),
    decreases s.len(),
{
    if s.len() > 0 {
        lemma_escaped_is_replaced_in_turn(s.drop_last());
        lemma_replaced_in_turn_single(s.last());
        lemma_replaced_in_turn_concat(s.drop_last(), seq![s.last()]);
        assert(s.drop_last() + seq![s.last()] =~= s);
    }
}

} // verus!
