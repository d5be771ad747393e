//! Text handling for chat-style commands: whitespace, trimming and tokens.
use vstd::prelude::*;

verus! {

/// The characters of a string, in order.
pub fn chars_of(s: &str) -> (v: Vec<char>)
    ensures
        v@ == s@,
{
    let mut v: Vec<char> = Vec::new();
    for c in it: s.chars()
        invariant
            v@ == it.seq().take(it.index() as int),
    {
        v.push(c);
    }
    v
}

/// Unicode `White_Space`, the property behind `char::is_whitespace`.
pub open spec fn is_white_space(c: char) -> bool {
    let u = c as u32;
    ||| 0x09 <= u <= 0x0D
    ||| u == 0x20
    ||| u == 0x85
    ||| u == 0xA0
    ||| u == 0x1680
    ||| 0x2000 <= u <= 0x200A
    ||| u == 0x2028
    ||| u == 0x2029
    ||| u == 0x202F
    ||| u == 0x205F
    ||| u == 0x3000
}

/// Whether `c` is Unicode white space.
pub fn is_whitespace(c: char) -> (b: bool)
    ensures
        b == is_white_space(c),
{
    let u = c as u32;
    (0x09 <= u && u <= 0x0D) || u == 0x20 || u == 0x85 || u == 0xA0 || u == 0x1680 || (0x2000 <= u
        && u <= 0x200A) || u == 0x2028 || u == 0x2029 || u == 0x202F || u == 0x205F || u == 0x3000
}

/// `s` without leading white space.
pub open spec fn trim_start(s: Seq<char>) -> Seq<char>
    decreases s.len(),
{
    if s.len() > 0 && is_white_space(s[0]) {
        trim_start(s.drop_first())
    } else {
        s
    }
}

/// `s` without trailing white space.
pub open spec fn trim_end(s: Seq<char>) -> Seq<char>
    decreases s.len(),
{
    if s.len() > 0 && is_white_space(s.last()) {
        trim_end(s.drop_last())
    } else {
        s
    }
}

/// `s` without leading and trailing white space, as `str::trim` gives it.
pub open spec fn trimmed(s: Seq<char>) -> Seq<char> {
    trim_end(trim_start(s))
}

/// Whether every character of `s` is white space.
pub open spec fn all_white_space(s: Seq<char>) -> bool {
    forall|i: int| 0 <= i < s.len() ==> is_white_space(#[trigger] s[i])
}

/// Trimming ignores white space around a text that starts and ends with
/// something else: the text comes back as it was.
pub proof fn lemma_trimmed_padded(lead: Seq<char>, t: Seq<char>, trail: Seq<char>)
    requires
        all_white_space(lead),
        all_white_space(trail),
        t.len() > 0,
        !is_white_space(t[0]),
        !is_white_space(t.last()),
    ensures
        trimmed(lead + t + trail) == t,
    decreases lead.len() + trail.len(),
{
    if lead.len() > 0 {
        let s = lead + t + trail;
        assert(s[0] == lead[0]);
        assert(s.drop_first() =~= lead.drop_first() + t + trail);
        lemma_trimmed_padded(lead.drop_first(), t, trail);
    } else if trail.len() > 0 {
        let u = lead + t + trail;
        assert(lead + t =~= t);
        assert(trim_start(u) == u) by {
            assert(u[0] == t[0]);
        }
        assert(u.last() == trail.last());
        assert(u.drop_last() =~= lead + t + trail.drop_last());
        lemma_trimmed_padded(lead, t, trail.drop_last());
        assert(trim_start(lead + t + trail.drop_last()) == lead + t + trail.drop_last()) by {
            assert((lead + t + trail.drop_last())[0] == t[0]);
        }
    } else {
        let u = lead + t + trail;
        assert(u =~= t);
    }
}

/// Char positions `(a, b)` such that `cs[a..b]` is `cs` trimmed.
pub fn trim_range(cs: &Vec<char>) -> (r: (usize, usize))
    ensures
        r.0 <= r.1 <= cs@.len(),
        cs@.subrange(r.0 as int, r.1 as int) == trimmed(cs@),
{
    let n = cs.len();
    let mut a: usize = 0;
    assert(cs@.subrange(0, n as int) =~= cs@);
    while a < n && is_whitespace(cs[a])
        invariant
            a <= n == cs@.len(),
            trim_start(cs@) == trim_start(cs@.subrange(a as int, n as int)),
        decreases n - a,
    {
        assert(cs@.subrange(a as int, n as int).drop_first() =~= cs@.subrange(a + 1, n as int));
        a = a + 1;
    }
    let ghost rest = cs@.subrange(a as int, n as int);
    assert(trim_start(rest) == rest);
    let mut b: usize = n;
    while b > a && is_whitespace(cs[b - 1])
        invariant
            a <= b <= n == cs@.len(),
            trim_end(rest) == trim_end(cs@.subrange(a as int, b as int)),
            rest == cs@.subrange(a as int, n as int),
            trim_start(cs@) == rest,
        decreases b,
    {
        assert(cs@.subrange(a as int, b as int).drop_last() =~= cs@.subrange(a as int, b - 1));
        b = b - 1;
    }
    (a, b)
}

/// Whether `cs[from..to]` spells `lit`.
pub fn range_equals(cs: &Vec<char>, from: usize, to: usize, lit: &str) -> (b: bool)
    requires
        from <= to <= cs@.len(),
    ensures
        b == (cs@.subrange(from as int, to as int) == lit@),
{
    let l = chars_of(lit);
    if to - from != l.len() {
        return false;
    }
    let mut i: usize = 0;
    while i < l.len()
        invariant
            i <= l@.len() == to - from,
            from <= to <= cs@.len(),
            l@ == lit@,
            forall|j: int| 0 <= j < i ==> cs@[from + j] == l@[j],
        decreases l@.len() - i,
    {
        if cs[from + i] != l[i] {
            assert(cs@.subrange(from as int, to as int)[i as int] != lit@[i as int]);
            return false;
        }
        i = i + 1;
    }
    assert(cs@.subrange(from as int, to as int) =~= lit@);
    true
}

/// Whether `text`, trimmed, is exactly `lit`.
pub fn trim_equals(text: &str, lit: &str) -> (b: bool)
    ensures
        b == (trimmed(text@) == lit@),
{
    let cs = chars_of(text);
    let (a, z) = trim_range(&cs);
    range_equals(&cs, a, z, lit)
}

/// End of the run of non-white-space characters starting at `i`.
pub open spec fn token_end(s: Seq<char>, i: int) -> int
    decreases s.len() - i,
{
    if 0 <= i < s.len() && !is_white_space(s[i]) {
        token_end(s, i + 1)
    } else {
        i
    }
}

/// Where a word that starts at `i` ends, and that it is made of non-white-space characters.
pub proof fn lemma_token_end(s: Seq<char>, i: int)
    requires
        0 <= i <= s.len(),
    ensures
        i <= token_end(s, i) <= s.len(),
        forall|k: int| i <= k < token_end(s, i) ==> !is_white_space(#[trigger] s[k]),
        token_end(s, i) < s.len() ==> is_white_space(s[token_end(s, i)]),
        i < s.len() && !is_white_space(s[i]) ==> token_end(s, i) > i,
    decreases s.len() - i,
{
    if i < s.len() && !is_white_space(s[i]) {
        lemma_token_end(s, i + 1);
    }
}

/// The white-space separated words of `s` from position `i` on, as
/// `str::split_whitespace` yields them.
pub open spec fn words_from(s: Seq<char>, i: int) -> Seq<Seq<char>>
    decreases s.len() - i,
{
    if i < 0 || i >= s.len() {
        Seq::empty()
    } else if is_white_space(s[i]) {
        words_from(s, i + 1)
    } else {
        let j = token_end(s, i);
        proof {
            lemma_token_end(s, i);
        }
        seq![s.subrange(i, j)] + words_from(s, j)
    }
}

/// Finds the next word at or after `from`: its char positions, or `None` when only white space is left.
pub fn next_word(cs: &Vec<char>, from: usize) -> (r: Option<(usize, usize)>)
    requires
        from <= cs@.len(),
    ensures
        r is None ==> words_from(cs@, from as int).len() == 0,
        r matches Some((a, b)) ==> from <= a < b <= cs@.len() && words_from(cs@, from as int) == seq![
            cs@.subrange(a as int, b as int),
        ] + words_from(cs@, b as int),
{
    let n = cs.len();
    let mut a = from;
    while a < n && is_whitespace(cs[a])
        invariant
            from <= a <= n == cs@.len(),
            words_from(cs@, from as int) == words_from(cs@, a as int),
        decreases n - a,
    {
        a = a + 1;
    }
    if a == n {
        return None;
    }
    let mut b = a;
    while b < n && !is_whitespace(cs[b])
        invariant
            a <= b <= n == cs@.len(),
            token_end(cs@, a as int) == token_end(cs@, b as int),
        decreases n - b,
    {
        b = b + 1;
    }
    proof {
        lemma_token_end(cs@, a as int);
    }
    Some((a, b))
}

/// The words of `s`.
pub open spec fn words(s: Seq<char>) -> Seq<Seq<char>> {
    words_from(s, 0)
}

} // verus!

