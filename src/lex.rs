//! Splitting an expression into whitespace-separated words.

use vstd::prelude::*;

verus! {

/// The characters with the Unicode `White_Space` property, the ones that
/// `char::is_whitespace` accepts.
pub open spec fn is_space(c: char) -> bool {
    let u = c as u32;
    (0x9 <= u && u <= 0xD) || u == 0x20 || u == 0x85 || u == 0xA0 || u == 0x1680 || (0x2000 <= u
        && u <= 0x200A) || u == 0x2028 || u == 0x2029 || u == 0x202F || u == 0x205F || u == 0x3000
}

/// The maximal runs of non-space characters of `s`, left to right.
pub open spec fn words(s: Seq<char>) -> Seq<Seq<char>>
    decreases s.len(),
{
    if s.len() == 0 {
        seq![]
    } else {
        let prev = words(s.drop_last());
        let c = s.last();
        if is_space(c) {
            prev
        } else if s.len() >= 2 && !is_space(s[s.len() - 2]) && prev.len() > 0 {
            prev.update(prev.len() - 1, prev.last().push(c))
        } else {
            prev.push(seq![c])
        }
    }
}

/// What a sequence of strings holds, as character sequences.
pub open spec fn texts(v: Seq<String>) -> Seq<Seq<char>> {
    v.map_values(|t: String| t@)
}

/// Whether `c` is a whitespace character.
pub fn is_space_char(c: char) -> (r: bool)
    ensures
        r == is_space(c),
{
    let u = c as u32;
    (0x9 <= u && u <= 0xD) || u == 0x20 || u == 0x85 || u == 0xA0 || u == 0x1680 || (0x2000 <= u
        && u <= 0x200A) || u == 0x2028 || u == 0x2029 || u == 0x202F || u == 0x205F || u == 0x3000
}

/// Splits `s` into its words, as `str::split_whitespace` does.
pub fn split_words(s: &str) -> (r: Vec<String>)
    ensures
        texts(r@) == words(s@),
{
    let n = s.unicode_len();
    let mut out: Vec<String> = Vec::new();
    let mut start: usize = 0;
    let mut inside = false;
    let mut i: usize = 0;
    while i < n
        invariant
            n == s@.len(),
            i <= n,
            start <= i,
            inside == (i > 0 && !is_space(s@[i - 1])),
            inside ==> start < i && !is_space(s@[start as int]),
            inside ==> (start == 0 || is_space(s@[start - 1])),
            !inside ==> texts(out@) == words(s@.take(i as int)),
            inside ==> texts(out@).push(s@.subrange(start as int, i as int)) == words(
                s@.take(i as int),
            ),
        decreases n - i,
    {
        let c = s.get_char(i);
        let ghost pre = s@.take(i as int);
        let ghost cur = s@.take(i + 1);
        assert(cur.drop_last() =~= pre);
        assert(cur.last() == c);
        if is_space_char(c) {
            if inside {
                let w = s.substring_char(start, i);
                out.push(w.to_owned());
                assert(texts(out@) =~= words(pre));
            }
            inside = false;
        } else {
            if inside {
                assert(s@.subrange(start as int, i as int).push(c) =~= s@.subrange(
                    start as int,
                    i + 1,
                ));
                assert(cur[cur.len() - 2] == s@[i - 1]);
                assert(texts(out@).push(s@.subrange(start as int, i + 1)) =~= words(cur));
            } else {
                start = i;
                assert(s@.subrange(start as int, i + 1) =~= seq![c]);
                if i > 0 {
                    assert(cur[cur.len() - 2] == s@[i - 1]);
                }
                assert(texts(out@).push(s@.subrange(start as int, i + 1)) =~= words(cur));
            }
            inside = true;
        }
        i = i + 1;
    }
    if inside {
        let w = s.substring_char(start, n);
        out.push(w.to_owned());
        assert(texts(out@) =~= words(s@.take(n as int)));
    }
    assert(s@.take(n as int) =~= s@);
    out
}

} // verus!
