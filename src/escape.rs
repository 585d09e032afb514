use vstd::prelude::*;
use vstd::string::StrSliceExecFns;

verus! {

/// The escape character that `\e` stands for.
pub const ESC: char = '\x1B';

/// What the character after a backslash decodes to, if it names an escape.
pub open spec fn escape_of(c: char) -> Option<char> {
    if c == 'n' {
        Some('\n')
    } else if c == 'e' {
        Some(ESC)
    } else {
        None
    }
}

/// Escape decoding of a literal, read left to right.
///
/// A backslash followed by `n` or `e` becomes a newline or ESC. A backslash
/// followed by any other character keeps both characters; a backslash as the
/// last character stays as it is.
pub open spec fn decode(s: Seq<char>) -> Seq<char>
    decreases s.len(),
{
    if s.len() == 0 {
        Seq::empty()
    } else if s[0] == '\\' && s.len() >= 2 {
        match escape_of(s[1]) {
            Some(d) => seq![d] + decode(s.subrange(2, s.len() as int)),
            None => seq!['\\', s[1]] + decode(s.subrange(2, s.len() as int)),
        }
    } else {
        seq![s[0]] + decode(s.subrange(1, s.len() as int))
    }
}

/// Escape encoding of control characters: newline and ESC become `\n` and `\e`.
pub open spec fn encode(s: Seq<char>) -> Seq<char>
    decreases s.len(),
{
    if s.len() == 0 {
        Seq::empty()
    } else {
        let head = if s[0] == '\n' {
            seq!['\\', 'n']
        } else if s[0] == ESC {
            seq!['\\', 'e']
        } else {
            seq![s[0]]
        };
        head + encode(s.subrange(1, s.len() as int))
    }
}

/// Decoding leaves text that holds no backslash as it is.
pub proof fn lemma_decode_plain(s: Seq<char>)
    requires
        !s.contains('\\'),
    ensures
        decode(s) == s,
    decreases s.len(),
{
    if s.len() > 0 {
        let tail = s.subrange(1, s.len() as int);
        assert(s[0] != '\\') by {
            assert(s.contains(s[0]));
        }
        assert forall|c: char| tail.contains(c) implies s.contains(c) by {
            let i = choose|i: int| 0 <= i < tail.len() && tail[i] == c;
            assert(s[i + 1] == c);
        }
        lemma_decode_plain(tail);
        assert(seq![s[0]] + tail == s);
    }
}

/// Encoding newlines and ESC characters and then decoding gives back the
/// text it started from, for text that holds no backslash.
pub proof fn lemma_decode_encode(s: Seq<char>)
    requires
        !s.contains('\\'),
    ensures
        decode(encode(s)) == s,
    decreases s.len(),
{
    if s.len() > 0 {
        let tail = s.subrange(1, s.len() as int);
        assert(s[0] != '\\') by {
            assert(s.contains(s[0]));
        }
        assert forall|c: char| tail.contains(c) implies s.contains(c) by {
            let i = choose|i: int| 0 <= i < tail.len() && tail[i] == c;
            assert(s[i + 1] == c);
        }
        lemma_decode_encode(tail);
        let e = encode(s);
        let et = encode(tail);
        if s[0] == '\n' || s[0] == ESC {
            assert(e.subrange(2, e.len() as int) == et);
        } else {
            assert(e.subrange(1, e.len() as int) == et);
        }
        assert(seq![s[0]] + tail == s);
    }
}

/// A backslash at the very end of a text without other backslashes decodes
/// to itself.
pub proof fn lemma_decode_trailing_backslash(s: Seq<char>)
    requires
        !s.contains('\\'),
    ensures
        decode(s.push('\\')) == s.push('\\'),
    decreases s.len(),
{
    let t = s.push('\\');
    if s.len() == 0 {
        assert(t.subrange(1, 1) == Seq::<char>::empty());
        assert(decode(Seq::<char>::empty()) == Seq::<char>::empty());
        assert(decode(t) == seq!['\\'] + Seq::<char>::empty());
        assert(seq!['\\'] + Seq::<char>::empty() == t);
    } else {
        let tail = s.subrange(1, s.len() as int);
        assert(s[0] != '\\') by {
            assert(s.contains(s[0]));
        }
        assert forall|c: char| tail.contains(c) implies s.contains(c) by {
            let i = choose|i: int| 0 <= i < tail.len() && tail[i] == c;
            assert(s[i + 1] == c);
        }
        lemma_decode_trailing_backslash(tail);
        assert(t.subrange(1, t.len() as int) == tail.push('\\'));
        assert(seq![s[0]] + tail.push('\\') == t);
    }
}

/// Relies on `String::push`: it appends one character.
#[verifier::external_body]
pub(crate) fn push_char(s: &mut String, c: char)
    ensures
        final(s)@ == old(s)@.push(c),
{
    s.push(c);
}

/// Decodes the escape sequences `\n` and `\e` of a literal.
pub fn string(unescaped: &str) -> (escaped: String)
    ensures
        escaped@ == decode(unescaped@),
{
    let len = unescaped.unicode_len();
    let ghost s = unescaped@;
    let mut index: usize = 0;
    let mut escaped = String::new();
    assert(s.subrange(0, len as int) == s);
    assert(escaped@ + decode(s) == decode(s));
    while index < len
        invariant
            len == s.len(),
            s == unescaped@,
            index <= len,
            escaped@ + decode(s.subrange(index as int, len as int)) == decode(s),
        decreases len - index,
    {
        let ghost rest = s.subrange(index as int, len as int);
        let c = unescaped.get_char(index);
        if c == '\\' && index + 1 != len {
            let next = unescaped.get_char(index + 1);
            assert(rest.subrange(2, rest.len() as int) == s.subrange(index + 2, len as int));
            if next == 'n' {
                push_char(&mut escaped, '\n');
            } else if next == 'e' {
                push_char(&mut escaped, ESC);
            } else {
                push_char(&mut escaped, '\\');
                push_char(&mut escaped, next);
            }
            index = index + 2;
        } else {
            assert(rest.subrange(1, rest.len() as int) == s.subrange(index + 1, len as int));
            push_char(&mut escaped, c);
            index = index + 1;
        }
        assert(escaped@ + decode(s.subrange(index as int, len as int)) == decode(s));
    }
    assert(s.subrange(len as int, len as int) == Seq::<char>::empty());
    assert(escaped@ + Seq::<char>::empty() == escaped@);
    escaped
}

} // verus!
