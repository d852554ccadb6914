//! Character-level string primitives with exact specifications.

use vstd::prelude::*;

verus! {

/// Appends one character to a `String` (std's `String::push`).
#[verifier::external_body]
pub(crate) fn push_char(s: &mut String, c: char)
    ensures
        final(s)@ == old(s)@.push(c),
{
    s.push(c);
}

/// Whether a character has Unicode's `White_Space` property: U+0009 to
/// U+000D, U+0020, U+0085, U+00A0, U+1680, U+2000 to U+200A, U+2028, U+2029,
/// U+202F, U+205F and U+3000.
pub open spec fn unicode_white_space(c: char) -> bool {
    let n = c as u32;
    ||| 0x09 <= n <= 0x0d
    ||| n == 0x20
    ||| n == 0x85
    ||| n == 0xa0
    ||| n == 0x1680
    ||| 0x2000 <= n <= 0x200a
    ||| n == 0x2028
    ||| n == 0x2029
    ||| n == 0x202f
    ||| n == 0x205f
    ||| n == 0x3000
}

/// std's `char::is_whitespace`: whether `c` has the Unicode property
/// `White_Space`, the property by which std's `str::trim` strips characters.
fn char_is_whitespace(c: char) -> (b: bool)
    ensures
        b == unicode_white_space(c),
{
    let n = c as u32;
    (0x09 <= n && n <= 0x0d) || n == 0x20 || n == 0x85 || n == 0xa0 || n == 0x1680 || (0x2000 <= n
        && n <= 0x200a) || n == 0x2028 || n == 0x2029 || n == 0x202f || n == 0x205f || n == 0x3000
}

/// The lower-case mapping of a string, as Unicode defines it.
pub uninterp spec fn unicode_lowercase(s: Seq<char>) -> Seq<char>;

/// std's `str::to_lowercase`: the string with every character replaced by its
/// Unicode lower-case mapping.
#[verifier::external_body]
pub(crate) fn to_lowercase(s: &str) -> (res: String)
    ensures
        res@ == unicode_lowercase(s@),
{
    s.to_lowercase()
}

/// The characters of a string slice, in order.
pub fn chars_of(s: &str) -> (v: Vec<char>)
    ensures
        v@ == s@,
{
    let mut v: Vec<char> = Vec::new();
    for c in it: s.chars()
        invariant
            v@ == it.seq().take(it.index() as int),
            it.seq() == s@,
    {
        v.push(c);
    }
    v
}

/// The string made of `chars[start..end]`.
pub fn string_from_range(chars: &Vec<char>, start: usize, end: usize) -> (s: String)
    requires
        start <= end <= chars@.len(),
    ensures
        s@ == chars@.subrange(start as int, end as int),
{
    let mut s = String::new();
    let mut i: usize = start;
    while i < end
        invariant
            start <= i <= end <= chars@.len(),
            s@ == chars@.subrange(start as int, i as int),
        decreases end - i,
    {
        push_char(&mut s, chars[i]);
        assert(chars@.subrange(start as int, i + 1) =~= chars@.subrange(start as int, i as int).push(
            chars@[i as int],
        ));
        i = i + 1;
    }
    s
}

/// A copy of a string slice.
pub fn copy_str(s: &str) -> (res: String)
    ensures
        res@ == s@,
{
    s.to_owned()
}

/// The concatenation of two strings.
pub fn concat2(a: &str, b: &str) -> (res: String)
    ensures
        res@ == a@ + b@,
{
    let mut res = a.to_owned();
    res.append(b);
    res
}

/// Whether two strings hold the same characters.
pub fn str_equal(a: &str, b: &str) -> (res: bool)
    ensures
        res == (a@ == b@),
{
    let x = a.to_owned();
    let y = b.to_owned();
    x == y
}

/// Whether two byte slices are equal.
pub fn bytes_equal(a: &[u8], b: &[u8]) -> (res: bool)
    ensures
        res == (a@ == b@),
{
    if a.len() != b.len() {
        return false;
    }
    let mut i: usize = 0;
    while i < a.len()
        invariant
            a@.len() == b@.len(),
            i <= a@.len(),
            forall|j: int| 0 <= j < i ==> a@[j] == b@[j],
        decreases a@.len() - i,
    {
        if a[i] != b[i] {
            return false;
        }
        i = i + 1;
    }
    assert(a@ =~= b@);
    true
}

/// `s` without `prefix` in front, where `s` begins with it.
pub open spec fn strip_prefix_spec(s: Seq<char>, prefix: Seq<char>) -> Option<Seq<char>> {
    if prefix.len() <= s.len() && s.take(prefix.len() as int) == prefix {
        Some(s.skip(prefix.len() as int))
    } else {
        None
    }
}

/// `s` without `prefix`, or `None` where `s` does not begin with `prefix`.
pub fn strip_prefix(s: &str, prefix: &str) -> (res: Option<String>)
    ensures
        match res {
            Some(r) => strip_prefix_spec(s@, prefix@) == Some(r@),
            None => strip_prefix_spec(s@, prefix@) is None,
        },
{
    let sc = chars_of(s);
    let pc = chars_of(prefix);
    if pc.len() > sc.len() {
        return None;
    }
    let mut i: usize = 0;
    while i < pc.len()
        invariant
            pc@ == prefix@,
            sc@ == s@,
            pc@.len() <= sc@.len(),
            i <= pc@.len(),
            forall|j: int| 0 <= j < i ==> sc@[j] == pc@[j],
        decreases pc@.len() - i,
    {
        if sc[i] != pc[i] {
            assert(s@.take(prefix@.len() as int)[i as int] != prefix@[i as int]);
            return None;
        }
        i = i + 1;
    }
    assert(s@.take(prefix@.len() as int) =~= prefix@);
    let rest = string_from_range(&sc, pc.len(), sc.len());
    assert(rest@ =~= s@.skip(prefix@.len() as int));
    Some(rest)
}

/// The number of white-space characters at the front of `s`.
pub open spec fn leading_ws(s: Seq<char>) -> nat
    decreases s.len(),
{
    if s.len() > 0 && unicode_white_space(s[0]) {
        1 + leading_ws(s.drop_first())
    } else {
        0
    }
}

/// The number of white-space characters at the end of `s`.
pub open spec fn trailing_ws(s: Seq<char>) -> nat
    decreases s.len(),
{
    if s.len() > 0 && unicode_white_space(s.last()) {
        1 + trailing_ws(s.drop_last())
    } else {
        0
    }
}

/// `s` without its leading and trailing white space.
pub open spec fn trim_spec(s: Seq<char>) -> Seq<char> {
    let front = s.skip(leading_ws(s) as int);
    front.take(front.len() - trailing_ws(front))
}

proof fn lemma_leading_ws(s: Seq<char>, i: int)
    requires
        0 <= i <= s.len(),
        forall|j: int| 0 <= j < i ==> unicode_white_space(#[trigger] s[j]),
        i == s.len() || !unicode_white_space(s[i]),
    ensures
        leading_ws(s) == i,
    decreases i,
{
    if i > 0 {
        assert forall|j: int| 0 <= j < i - 1 implies unicode_white_space(
            #[trigger] s.drop_first()[j],
        ) by {
            assert(s.drop_first()[j] == s[j + 1]);
        }
        lemma_leading_ws(s.drop_first(), i - 1);
    }
}

proof fn lemma_trailing_ws(s: Seq<char>, k: int)
    requires
        0 <= k <= s.len(),
        forall|j: int| s.len() - k <= j < s.len() ==> unicode_white_space(#[trigger] s[j]),
        k == s.len() || !unicode_white_space(s[s.len() - k - 1]),
    ensures
        trailing_ws(s) == k,
    decreases k,
{
    if k > 0 {
        let t = s.drop_last();
        assert forall|j: int| t.len() - (k - 1) <= j < t.len() implies unicode_white_space(
            #[trigger] t[j],
        ) by {
            assert(t[j] == s[j]);
        }
        if k - 1 < t.len() {
            assert(t[t.len() - (k - 1) - 1] == s[s.len() - k - 1]);
        }
        lemma_trailing_ws(t, k - 1);
    }
}

/// std's `str::trim`, on the characters of `s`: the leading and trailing
/// characters with the Unicode `White_Space` property are removed.
pub fn trim(s: &str) -> (res: String)
    ensures
        res@ == trim_spec(s@),
{
    let c = chars_of(s);
    let n = c.len();
    let mut start: usize = 0;
    while start < n && char_is_whitespace(c[start])
        invariant
            c@ == s@,
            n == c@.len(),
            start <= n,
            forall|j: int| 0 <= j < start ==> unicode_white_space(#[trigger] c@[j]),
        decreases n - start,
    {
        start = start + 1;
    }
    proof {
        lemma_leading_ws(s@, start as int);
    }
    let mut end: usize = n;
    while end > start && char_is_whitespace(c[end - 1])
        invariant
            c@ == s@,
            n == c@.len(),
            start <= end <= n,
            forall|j: int| end <= j < n ==> unicode_white_space(#[trigger] c@[j]),
        decreases end - start,
    {
        end = end - 1;
    }
    let ghost front = s@.skip(start as int);
    proof {
        assert forall|j: int| front.len() - (n - end) <= j < front.len() implies unicode_white_space(
            #[trigger] front[j],
        ) by {
            assert(front[j] == s@[j + start]);
        }
        if n - end < front.len() {
            assert(front[front.len() - (n - end) - 1] == s@[end - 1]);
        }
        lemma_trailing_ws(front, n - end);
    }
    let res = string_from_range(&c, start, end);
    assert(res@ =~= front.take(front.len() - (n - end)));
    res
}

/// The pieces of `s` between the occurrences of `sep`, as std's `str::split`
/// with a `char` pattern gives them: one more piece than there are separators.
pub open spec fn split_spec(s: Seq<char>, sep: char) -> Seq<Seq<char>>
    decreases s.len(),
{
    if s.len() == 0 {
        seq![Seq::empty()]
    } else {
        let p = split_spec(s.drop_last(), sep);
        if s.last() == sep {
            p.push(Seq::empty())
        } else {
            p.update(p.len() - 1, p.last().push(s.last()))
        }
    }
}

pub proof fn lemma_split_nonempty(s: Seq<char>, sep: char)
    ensures
        split_spec(s, sep).len() >= 1,
    decreases s.len(),
{
    if s.len() > 0 {
        lemma_split_nonempty(s.drop_last(), sep);
    }
}

/// The pieces of `s` between the occurrences of `sep`.
pub fn split(s: &str, sep: char) -> (res: Vec<String>)
    ensures
        res@.len() == split_spec(s@, sep).len(),
        forall|i: int| 0 <= i < res@.len() ==> #[trigger] res@[i]@ == split_spec(s@, sep)[i],
{
    let c = chars_of(s);
    let mut done: Vec<String> = Vec::new();
    let mut cur = String::new();
    let mut i: usize = 0;
    while i < c.len()
        invariant
            c@ == s@,
            i <= c@.len(),
            done@.len() + 1 == split_spec(s@.take(i as int), sep).len(),
            forall|k: int| 0 <= k < done@.len() ==> #[trigger] done@[k]@ == split_spec(
                s@.take(i as int),
                sep,
            )[k],
            cur@ == split_spec(s@.take(i as int), sep).last(),
        decreases c@.len() - i,
    {
        let ghost prev = split_spec(s@.take(i as int), sep);
        proof {
            lemma_split_nonempty(s@.take(i as int), sep);
            assert(s@.take(i + 1).drop_last() =~= s@.take(i as int));
        }
        let ch = c[i];
        if ch == sep {
            let piece = cur;
            done.push(piece);
            cur = String::new();
        } else {
            push_char(&mut cur, ch);
        }
        i = i + 1;
        proof {
            let next = split_spec(s@.take(i as int), sep);
            if ch == sep {
                assert(next == prev.push(Seq::empty()));
            } else {
                assert(next == prev.update(prev.len() - 1, prev.last().push(ch)));
            }
            assert forall|k: int| 0 <= k < done@.len() implies #[trigger] done@[k]@ == next[k] by {}
        }
    }
    assert(s@.take(c@.len() as int) =~= s@);
    let ghost fin = split_spec(s@, sep);
    done.push(cur);
    assert forall|k: int| 0 <= k < done@.len() implies #[trigger] done@[k]@ == fin[k] by {}
    done
}

/// The pieces joined, with `sep` between each two.
pub open spec fn join_spec(parts: Seq<Seq<char>>, sep: Seq<char>) -> Seq<char>
    decreases parts.len(),
{
    if parts.len() == 0 {
        Seq::empty()
    } else if parts.len() == 1 {
        parts[0]
    } else {
        join_spec(parts.drop_last(), sep) + sep + parts.last()
    }
}

/// The views of a sequence of strings.
pub open spec fn views(v: Seq<String>) -> Seq<Seq<char>> {
    v.map_values(|s: String| s@)
}

/// std's `[String]::join` with a string separator.
pub fn join(parts: &Vec<String>, sep: &str) -> (res: String)
    ensures
        res@ == join_spec(views(parts@), sep@),
{
    let mut res = String::new();
    let mut i: usize = 0;
    while i < parts.len()
        invariant
            i <= parts@.len(),
            res@ == join_spec(views(parts@).take(i as int), sep@),
        decreases parts@.len() - i,
    {
        if i != 0 {
            res.append(sep);
        }
        res.append(parts[i].as_str());
        assert(views(parts@).take(i + 1).drop_last() =~= views(parts@).take(i as int));
        i = i + 1;
    }
    assert(views(parts@).take(parts@.len() as int) =~= views(parts@));
    res
}

proof fn lemma_join_extend_last(p: Seq<Seq<char>>, sep: Seq<char>, x: char)
    requires
        p.len() >= 1,
    ensures
        join_spec(p.update(p.len() - 1, p.last().push(x)), sep) == join_spec(p, sep).push(x),
{
    let u = p.update(p.len() - 1, p.last().push(x));
    if p.len() >= 2 {
        assert(u.drop_last() =~= p.drop_last());
        assert(join_spec(u, sep) =~= join_spec(p, sep).push(x));
    }
}

/// Splitting at a character and joining the pieces with it gives the text
/// back.
pub proof fn lemma_split_join(s: Seq<char>, sep: char)
    ensures
        join_spec(split_spec(s, sep), seq![sep]) == s,
    decreases s.len(),
{
    if s.len() > 0 {
        let t = s.drop_last();
        let p = split_spec(t, sep);
        lemma_split_join(t, sep);
        lemma_split_nonempty(t, sep);
        if s.last() == sep {
            let q = p.push(Seq::<char>::empty());
            assert(q.drop_last() =~= p);
            assert(join_spec(q, seq![sep]) =~= t + seq![sep]);
        } else {
            lemma_join_extend_last(p, seq![sep], s.last());
        }
        assert(s =~= t.push(s.last()));
    }
}

/// Text without the separator is one piece.
pub proof fn lemma_split_no_sep(s: Seq<char>, sep: char)
    requires
        forall|i: int| 0 <= i < s.len() ==> s[i] != sep,
    ensures
        split_spec(s, sep) == seq![s],
    decreases s.len(),
{
    if s.len() > 0 {
        let t = s.drop_last();
        assert forall|i: int| 0 <= i < t.len() implies t[i] != sep by {
            assert(t[i] == s[i]);
        }
        lemma_split_no_sep(t, sep);
        assert(s.last() != sep);
        assert(t.push(s.last()) =~= s);
        assert(split_spec(s, sep) =~= seq![s]);
    } else {
        assert(s =~= Seq::<char>::empty());
    }
}

/// Appending a separator and then text without it adds that text as one more
/// piece.
pub proof fn lemma_split_append(a: Seq<char>, sep: char, b: Seq<char>)
    requires
        forall|i: int| 0 <= i < b.len() ==> b[i] != sep,
    ensures
        split_spec(a + seq![sep] + b, sep) == split_spec(a, sep).push(b),
    decreases b.len(),
{
    if b.len() == 0 {
        let s = a + seq![sep] + b;
        assert(s.drop_last() =~= a);
        assert(s.last() == sep);
        assert(b =~= Seq::<char>::empty());
    } else {
        let c = b.drop_last();
        assert forall|i: int| 0 <= i < c.len() implies c[i] != sep by {
            assert(c[i] == b[i]);
        }
        lemma_split_append(a, sep, c);
        lemma_split_nonempty(a, sep);
        let s = a + seq![sep] + b;
        assert(s.drop_last() =~= a + seq![sep] + c);
        assert(s.last() == b.last());
        assert(b.last() != sep);
        let p = split_spec(a + seq![sep] + c, sep);
        assert(p == split_spec(a, sep).push(c));
        assert(p.update(p.len() - 1, p.last().push(b.last())) =~= split_spec(a, sep).push(b)) by {
            assert(c.push(b.last()) =~= b);
        }
    }
}

} // verus!
