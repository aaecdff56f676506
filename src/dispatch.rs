//! Reading the number type off an input line of the form `[tag:]expression`.

use vstd::prelude::*;

verus! {

/// The number types an input line can ask for.
#[derive(Clone, Copy, Debug, PartialEq, Eq, Structural)]
pub enum NumberKind {
    Float,
    Int,
}

/// Where the first `:` of `s` stands, if there is one.
pub open spec fn first_colon(s: Seq<char>) -> Option<int> {
    if exists|k: int| 0 <= k < s.len() && s[k] == ':' {
        Some(choose|k: int| 0 <= k < s.len() && s[k] == ':' && forall|j: int| 0 <= j < k ==> s[j] != ':')
    } else {
        None
    }
}

/// The tag a line gets when it names none.
pub open spec fn default_tag() -> Seq<char> {
    seq!['f', 'l', 'o', 'a', 't']
}

/// The number type a tag names.
pub open spec fn kind_of(tag: Seq<char>) -> Option<NumberKind> {
    if tag == default_tag() {
        Some(NumberKind::Float)
    } else if tag == seq!['i', 'n', 't'] {
        Some(NumberKind::Int)
    } else {
        None
    }
}

/// Whether two strings hold the same characters.
pub fn same_text(a: &str, b: &str) -> (r: bool)
    ensures
        r == (a@ == b@),
{
    let n = a.unicode_len();
    if n != b.unicode_len() {
        return false;
    }
    let mut i: usize = 0;
    while i < n
        invariant
            n == a@.len() == b@.len(),
            i <= n,
            a@.take(i as int) == b@.take(i as int),
        decreases n - i,
    {
        if a.get_char(i) != b.get_char(i) {
            return false;
        }
        assert(a@.take(i + 1) =~= a@.take(i as int).push(a@[i as int]));
        assert(b@.take(i + 1) =~= b@.take(i as int).push(b@[i as int]));
        i = i + 1;
    }
    assert(a@.take(n as int) =~= a@);
    assert(b@.take(n as int) =~= b@);
    true
}

/// Splits a line at its first `:` into a tag and the expression; a line
/// without one is a `float` expression as a whole.
pub fn split_type_tag(line: &str) -> (r: (&str, &str))
    ensures
        match first_colon(line@) {
            Some(k) => r.0@ == line@.take(k) && r.1@ == line@.skip(k + 1),
            None => r.0@ == default_tag() && r.1@ == line@,
        },
{
    let n = line.unicode_len();
    let mut i: usize = 0;
    while i < n
        invariant
            n == line@.len(),
            i <= n,
            forall|j: int| 0 <= j < i ==> line@[j] != ':',
        decreases n - i,
    {
        if line.get_char(i) == ':' {
            assert(forall|k: int| 0 <= k < n && line@[k] == ':' && (forall|j: int| 0 <= j < k ==> line@[j] != ':') ==> k == i);
            return (line.substring_char(0, i), line.substring_char(i + 1, n));
        }
        i = i + 1;
    }
    proof {
        reveal_strlit("float");
    }
    assert("float"@ =~= default_tag());
    ("float", line)
}

/// The number type a tag names, if any.
pub fn number_kind(tag: &str) -> (r: Option<NumberKind>)
    ensures
        r == kind_of(tag@),
{
    proof {
        reveal_strlit("float");
        reveal_strlit("int");
    }
    assert("float"@ =~= default_tag());
    assert("int"@ =~= seq!['i', 'n', 't']);
    if same_text(tag, "float") {
        Some(NumberKind::Float)
    } else if same_text(tag, "int") {
        Some(NumberKind::Int)
    } else {
        None
    }
}

} // verus!
