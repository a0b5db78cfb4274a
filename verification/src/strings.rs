//! Texts as sequences of characters: prefixes, replacing a character, and
//! what the library takes on trust about `String`.

use vstd::prelude::*;

verus! {

/// `String::push` of the standard library: the string afterwards is the
/// string before with `c` as one more character at its end. Taken on trust.
pub assume_specification[ String::push ](s: &mut String, c: char)
    ensures
        final(s)@ == old(s)@.push(c),
;

/// Whether `p` stands in `t` from position `i` on.
pub open spec fn occurs_at(t: Seq<char>, i: int, p: Seq<char>) -> bool {
    0 <= i && i + p.len() <= t.len() && t.subrange(i, i + p.len()) == p
}

/// Whether `t` begins with `p`.
pub open spec fn starts_with(t: Seq<char>, p: Seq<char>) -> bool {
    occurs_at(t, 0, p)
}

/// `s` with every `from` replaced by `to`.
pub open spec fn replaced(s: Seq<char>, from: char, to: Seq<char>) -> Seq<char>
    decreases s.len(),
{
    if s.len() == 0 {
        Seq::empty()
    } else {
        replaced(s.drop_last(), from, to) + if s.last() == from {
            to
        } else {
            seq![s.last()]
        }
    }
}

/// Replacing goes through a text piece by piece.
pub proof fn lemma_replaced_concat(a: Seq<char>, b: Seq<char>, from: char, to: Seq<char>)
    ensures
        replaced(a + b, from, to) == replaced(a, from, to) + replaced(b, from, to),
    decreases b.len(),
{
    if b.len() > 0 {
        lemma_replaced_concat(a, b.drop_last(), from, to);
        assert((a + b).drop_last() =~= a + b.drop_last());
    }
}

/// Replacing a character that does not occur changes nothing.
pub proof fn lemma_replaced_absent(s: Seq<char>, from: char, to: Seq<char>)
    requires
        forall|i: int| 0 <= i < s.len() ==> s[i] != from,
    ensures
        replaced(s, from, to) == s,
    decreases s.len(),
{
    if s.len() > 0 {
        lemma_replaced_absent(s.drop_last(), from, to);
    }
}

/// Replacing in a text of one character.
pub proof fn lemma_replaced_single(c: char, from: char, to: Seq<char>)
    ensures
        replaced(seq![c], from, to) == if c == from {
            to
        } else {
            seq![c]
        },
{
    let one = seq![c];
    assert(one.drop_last() =~= Seq::<char>::empty());
    assert(replaced(Seq::<char>::empty(), from, to) =~= Seq::<char>::empty());
}

/// The characters of a text.
pub fn chars_of(text: &str) -> (out: Vec<char>)
    ensures
        out@ == text@,
{
    let mut out: Vec<char> = Vec::new();
    let chars = text.chars();
    for c in it: chars
        invariant
            it.seq() == text@,
            out@ == text@.take(it.index() as int),
    {
        out.push(c);
    }
    out
}

/// What follows `prefix` in `text`, if `text` begins with it.
pub fn strip_prefix(text: &str, prefix: &str) -> (rest: Option<String>)
    ensures
        rest is Some <==> starts_with(text@, prefix@),
        rest matches Some(r) ==> r@ == text@.skip(prefix@.len() as int),
{
    let all = chars_of(text);
    let head = chars_of(prefix);
    if head.len() > all.len() {
        return None;
    }
    for i in 0..head.len()
        invariant
            all@ == text@,
            head@ == prefix@,
            head.len() <= all.len(),
            forall|j: int| 0 <= j < i ==> all[j] == head[j],
    {
        if all[i] != head[i] {
            return None;
        }
    }
    proof {
        assert(text@.subrange(0, prefix@.len() as int) =~= prefix@);
    }
    let mut rest = String::new();
    for i in head.len()..all.len()
        invariant
            all@ == text@,
            head@ == prefix@,
            head.len() <= all.len(),
            rest@ == text@.subrange(head.len() as int, i as int),
    {
        rest.push(all[i]);
    }
    Some(rest)
}

/// `text` with every `from` replaced by `to`.
pub fn replace_char(text: &str, from: char, to: char) -> (out: String)
    ensures
        out@ == replaced(text@, from, seq![to]),
{
    let mut out = String::new();
    let chars = text.chars();
    for c in it: chars
        invariant
            it.seq() == text@,
            out@ == replaced(text@.take(it.index() as int), from, seq![to]),
    {
        proof {
            let k = it.index() as int;
            assert(text@.take(k + 1).drop_last() =~= text@.take(k));
        }
        if c == from {
            out.push(to);
        } else {
            out.push(c);
        }
    }
    proof {
        assert(text@.take(text@.len() as int) =~= text@);
    }
    out
}

} // verus!
