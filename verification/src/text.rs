//! Operations on text that the messages and commands need.

use vstd::prelude::*;

verus! {

/// Whether a character is white space: the characters that Unicode gives the
/// property `White_Space`.
pub open spec fn white_space(c: char) -> bool {
    let n = c as u32;
    ||| 0x09 <= n <= 0x0D
    ||| n == 0x20
    ||| n == 0x85
    ||| n == 0xA0
    ||| n == 0x1680
    ||| 0x2000 <= n <= 0x200A
    ||| n == 0x2028
    ||| n == 0x2029
    ||| n == 0x202F
    ||| n == 0x205F
    ||| n == 0x3000
}

/// The length of `s` without the white space at its end.
pub open spec fn trimmed_len(s: Seq<char>) -> nat
    decreases s.len(),
{
    if s.len() > 0 && white_space(s.last()) {
        trimmed_len(s.drop_last())
    } else {
        s.len()
    }
}

/// `s` without the white space at its end.
pub open spec fn trim_end(s: Seq<char>) -> Seq<char> {
    s.take(trimmed_len(s) as int)
}

/// What is left after trimming is a prefix that does not end in white space.
pub proof fn lemma_trimmed(s: Seq<char>)
    ensures
        trimmed_len(s) <= s.len(),
        trimmed_len(s) > 0 ==> !white_space(s[trimmed_len(s) - 1]),
        forall|i: int| trimmed_len(s) <= i < s.len() ==> white_space(s[i]),
    decreases s.len(),
{
    if s.len() > 0 && white_space(s.last()) {
        let shorter = s.drop_last();
        lemma_trimmed(shorter);
        assert forall|i: int| trimmed_len(s) <= i < s.len() implies white_space(s[i]) by {
            if i < shorter.len() {
                assert(shorter[i] == s[i]);
            }
        }
        if trimmed_len(s) > 0 {
            assert(shorter[trimmed_len(s) - 1] == s[trimmed_len(s) - 1]);
        }
    }
}

/// White space added at the end is trimmed away again.
pub proof fn lemma_trim_ignores_white_tail(s: Seq<char>, tail: Seq<char>)
    requires
        forall|i: int| 0 <= i < tail.len() ==> white_space(tail[i]),
    ensures
        trimmed_len(s + tail) == trimmed_len(s),
        trim_end(s + tail) == trim_end(s),
    decreases tail.len(),
{
    if tail.len() == 0 {
        assert(s + tail =~= s);
    } else {
        let shorter = tail.drop_last();
        assert((s + tail).drop_last() =~= s + shorter);
        assert((s + tail).last() == tail.last());
        lemma_trim_ignores_white_tail(s, shorter);
        lemma_trimmed(s);
        assert((s + tail).take(trimmed_len(s) as int) =~= s.take(trimmed_len(s) as int));
    }
}

/// Trimming what is already trimmed changes nothing.
pub proof fn lemma_trim_idempotent(s: Seq<char>)
    ensures
        trim_end(trim_end(s)) == trim_end(s),
{
    lemma_trimmed(s);
    let t = trim_end(s);
    if t.len() > 0 {
        assert(t.last() == s[trimmed_len(s) - 1]);
    }
    assert(t.take(t.len() as int) =~= t);
}

/// Whether a character is white space.
pub fn is_whitespace(c: char) -> (b: bool)
    ensures
        b == white_space(c),
{
    let n: u32 = c as u32;
    (0x09 <= n && n <= 0x0D) || n == 0x20 || n == 0x85 || n == 0xA0 || n == 0x1680 || (0x2000 <= n
        && n <= 0x200A) || n == 0x2028 || n == 0x2029 || n == 0x202F || n == 0x205F || n == 0x3000
}

/// `String::push` appends the character to the end of the string, as its
/// documentation says.
pub assume_specification[ String::push ](s: &mut String, ch: char)
    ensures
        final(s)@ == old(s)@.push(ch),
;

/// The characters of a text, in a vector.
pub fn chars_of(s: &str) -> (chars: Vec<char>)
    ensures
        chars@ == s@,
{
    let mut chars: Vec<char> = Vec::new();
    for c in iter: s.chars()
        invariant
            iter.seq() == s@,
            chars@ == s@.take(iter.index() as int),
    {
        proof {
            assert(s@.take(iter.index() + 1) =~= s@.take(iter.index() as int).push(c));
        }
        chars.push(c);
    }
    proof {
        assert(s@.take(s@.len() as int) =~= s@);
    }
    chars
}

/// The text made of the characters from `from` up to, not including, `to`.
pub fn text_of(chars: &Vec<char>, from: usize, to: usize) -> (out: String)
    requires
        from <= to <= chars@.len(),
    ensures
        out@ == chars@.subrange(from as int, to as int),
{
    let mut out = String::new();
    let mut i: usize = from;
    while i < to
        invariant
            from <= i <= to <= chars@.len(),
            out@ == chars@.subrange(from as int, i as int),
        decreases to - i,
    {
        proof {
            assert(chars@.subrange(from as int, i + 1) =~= chars@.subrange(from as int, i as int).push(
                chars@[i as int],
            ));
        }
        out.push(chars[i]);
        i += 1;
    }
    out
}

/// Returns `s` without the white space at its end.
pub fn trim_right(s: &str) -> (out: String)
    ensures
        out@ == trim_end(s@),
{
    let chars = chars_of(s);
    let mut end: usize = chars.len();
    assert(s@.take(end as int) =~= s@);
    while end > 0 && is_whitespace(chars[end - 1])
        invariant
            chars@ == s@,
            end <= s@.len(),
            trimmed_len(s@) == trimmed_len(s@.take(end as int)),
        decreases end,
    {
        proof {
            let now = s@.take(end as int);
            assert(now.last() == s@[end - 1]);
            assert(now.drop_last() =~= s@.take(end - 1));
        }
        end -= 1;
    }
    proof {
        let now = s@.take(end as int);
        if end > 0 {
            assert(now.last() == s@[end - 1]);
        }
        assert(trimmed_len(now) == end);
        assert(s@.subrange(0, end as int) =~= s@.take(end as int));
    }
    text_of(&chars, 0, end)
}

/// The pieces of `s` between the occurrences of `sep`. There is always one
/// piece more than there are separators, so the empty text has one piece,
/// and two separators in a row have an empty piece between them.
pub open spec fn pieces(s: Seq<char>, sep: char) -> Seq<Seq<char>>
    decreases s.len(),
{
    if s.len() == 0 {
        seq![Seq::empty()]
    } else {
        let before = pieces(s.drop_last(), sep);
        if s.last() == sep {
            before.push(Seq::empty())
        } else {
            before.update(before.len() - 1, before.last().push(s.last()))
        }
    }
}

/// Splits `s` at each occurrence of `sep`.
pub fn split(s: &str, sep: char) -> (list: Vec<String>)
    ensures
        list.deep_view() == pieces(s@, sep),
        list@.len() >= 1,
{
    let chars = chars_of(s);
    let n = chars.len();
    let mut list: Vec<String> = Vec::new();
    let mut piece = String::new();
    let mut i: usize = 0;
    proof {
        assert(s@.take(0) =~= Seq::<char>::empty());
        assert(list.deep_view().push(piece@) =~= pieces(s@.take(0), sep));
    }
    while i < n
        invariant
            chars@ == s@,
            n == s@.len(),
            i <= n,
            list.deep_view().push(piece@) == pieces(s@.take(i as int), sep),
        decreases n - i,
    {
        let c = chars[i];
        proof {
            let now = s@.take(i + 1);
            assert(now.drop_last() =~= s@.take(i as int));
            assert(now.last() == c);
        }
        let ghost before = list.deep_view();
        let ghost held = piece@;
        if c == sep {
            list.push(piece);
            piece = String::new();
            proof {
                assert(list.deep_view() =~= before.push(held));
            }
        } else {
            piece.push(c);
            proof {
                assert(before.push(piece@) =~= before.push(held).update(
                    before.len() as int,
                    held.push(c),
                ));
            }
        }
        i += 1;
    }
    proof {
        assert(s@.take(n as int) =~= s@);
    }
    let ghost before = list.deep_view();
    list.push(piece);
    proof {
        assert(list.deep_view() =~= before.push(piece@));
    }
    list
}

/// The pieces of `list` with `sep` between each two of them.
pub open spec fn joined(list: Seq<Seq<char>>, sep: Seq<char>) -> Seq<char>
    decreases list.len(),
{
    if list.len() == 0 {
        Seq::empty()
    } else if list.len() == 1 {
        list[0]
    } else {
        joined(list.drop_last(), sep) + sep + list.last()
    }
}

/// Joins the texts of `list`, with `sep` between each two of them.
pub fn join(list: &Vec<String>, sep: &str) -> (out: String)
    ensures
        out@ == joined(list.deep_view(), sep@),
{
    let mut out = String::new();
    let n = list.len();
    let mut i: usize = 0;
    proof {
        assert(list.deep_view().take(0) =~= Seq::<Seq<char>>::empty());
    }
    while i < n
        invariant
            n == list@.len(),
            i <= n,
            out@ == joined(list.deep_view().take(i as int), sep@),
        decreases n - i,
    {
        proof {
            let now = list.deep_view().take(i + 1);
            assert(now.drop_last() =~= list.deep_view().take(i as int));
            assert(now.last() == list@[i as int]@);
            if i == 0 {
                assert(now[0] == list@[0]@);
                assert(Seq::<char>::empty() + list@[0]@ =~= list@[0]@);
            }
        }
        if i > 0 {
            out.append(sep);
        }
        out.append(list[i].as_str());
        i += 1;
    }
    proof {
        assert(list.deep_view().take(n as int) =~= list.deep_view());
    }
    out
}

/// `token` stands at the start of `s`.
pub open spec fn starts_with(s: Seq<char>, token: Seq<char>) -> bool {
    token.len() <= s.len() && s.take(token.len() as int) == token
}

/// `s` with each occurrence of `token` replaced by `value`. Occurrences are
/// found from the left and do not overlap; what was put in is not searched
/// again. An empty token occurs nowhere.
pub open spec fn replaced(s: Seq<char>, token: Seq<char>, value: Seq<char>) -> Seq<char>
    decreases s.len(),
{
    if s.len() == 0 {
        s
    } else if token.len() > 0 && starts_with(s, token) {
        value + replaced(s.skip(token.len() as int), token, value)
    } else {
        seq![s[0]] + replaced(s.skip(1), token, value)
    }
}

/// Whether `token` stands in `chars` at the place `at`.
fn stands_at(chars: &Vec<char>, at: usize, token: &Vec<char>) -> (b: bool)
    requires
        at <= chars@.len(),
    ensures
        b == starts_with(chars@.skip(at as int), token@),
{
    let n = chars.len();
    let t = token.len();
    if t > n - at {
        return false;
    }
    let mut j: usize = 0;
    while j < t
        invariant
            n == chars@.len(),
            t == token@.len(),
            at + t <= n,
            j <= t,
            forall|k: int| 0 <= k < j ==> chars@[at + k] == token@[k],
        decreases t - j,
    {
        if chars[at + j] != token[j] {
            proof {
                let tail = chars@.skip(at as int);
                assert(tail.take(t as int)[j as int] == chars@[at + j]);
            }
            return false;
        }
        j += 1;
    }
    proof {
        let tail = chars@.skip(at as int);
        assert(tail.take(t as int) =~= token@);
    }
    true
}

/// Replaces each occurrence of `token` in `s` by `value`.
pub fn replace_all(s: &str, token: &str, value: &str) -> (out: String)
    ensures
        out@ == replaced(s@, token@, value@),
{
    let chars = chars_of(s);
    let mark = chars_of(token);
    let n = chars.len();
    let t = mark.len();
    let mut out = String::new();
    let mut i: usize = 0;
    proof {
        assert(chars@.skip(0) =~= chars@);
        assert(out@ + replaced(chars@, token@, value@) =~= replaced(s@, token@, value@));
    }
    while i < n
        invariant
            chars@ == s@,
            mark@ == token@,
            n == chars@.len(),
            t == mark@.len(),
            i <= n,
            out@ + replaced(chars@.skip(i as int), token@, value@) == replaced(s@, token@, value@),
        decreases n - i,
    {
        let ghost tail = chars@.skip(i as int);
        let ghost so_far = out@;
        if t > 0 && stands_at(&chars, i, &mark) {
            out.append(value);
            proof {
                assert(tail.skip(t as int) =~= chars@.skip(i + t));
                assert(so_far + (value@ + replaced(chars@.skip(i + t), token@, value@)) =~= (so_far
                    + value@) + replaced(chars@.skip(i + t), token@, value@));
            }
            i += t;
        } else {
            out.push(chars[i]);
            proof {
                assert(tail.skip(1) =~= chars@.skip(i + 1));
                assert(tail[0] == chars@[i as int]);
                assert(so_far + (seq![tail[0]] + replaced(chars@.skip(i + 1), token@, value@)) =~= (
                so_far.push(chars@[i as int])) + replaced(chars@.skip(i + 1), token@, value@));
            }
            i += 1;
        }
    }
    proof {
        assert(out@ + Seq::<char>::empty() =~= out@);
    }
    out
}

} // verus!
