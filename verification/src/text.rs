use vstd::prelude::*;
use vstd::string::*;

verus! {

broadcast use vstd::string::group_string_axioms;

/// The Unicode `White_Space` property, which `char::is_whitespace` tests and
/// `str::trim` strips: U+0009..U+000D, U+0020, U+0085, U+00A0, U+1680,
/// U+2000..U+200A, U+2028, U+2029, U+202F, U+205F and U+3000.
pub open spec fn is_white_space(c: char) -> bool {
    let v = c as u32;
    ||| 0x9 <= v <= 0xd
    ||| v == 0x20
    ||| v == 0x85
    ||| v == 0xa0
    ||| v == 0x1680
    ||| 0x2000 <= v <= 0x200a
    ||| v == 0x2028
    ||| v == 0x2029
    ||| v == 0x202f
    ||| v == 0x205f
    ||| v == 0x3000
}

/// Whether `c` is white space, as `char::is_whitespace` answers.
pub fn is_whitespace(c: char) -> (b: bool)
    ensures
        b == is_white_space(c),
{
    let v = c as u32;
    (0x9 <= v && v <= 0xd) || v == 0x20 || v == 0x85 || v == 0xa0 || v == 0x1680 || (0x2000 <= v
        && v <= 0x200a) || v == 0x2028 || v == 0x2029 || v == 0x202f || v == 0x205f || v == 0x3000
}

/// The characters of `s`, in order.
pub fn chars_of(s: &str) -> (v: Vec<char>)
    ensures
        v@ == s@,
{
    let mut v: Vec<char> = Vec::new();
    for c in it: s.chars()
        invariant
            v@ == it.seq().take(it.index()),
    {
        v.push(c);
    }
    v
}


/// `s` without its leading white space.
pub open spec fn trim_start(s: Seq<char>) -> Seq<char>
    decreases s.len(),
{
    if s.len() > 0 && is_white_space(s[0]) {
        trim_start(s.drop_first())
    } else {
        s
    }
}

/// `s` without its trailing white space.
pub open spec fn trim_end(s: Seq<char>) -> Seq<char>
    decreases s.len(),
{
    if s.len() > 0 && is_white_space(s.last()) {
        trim_end(s.drop_last())
    } else {
        s
    }
}

/// `s` without leading and trailing white space, as `str::trim` gives it.
pub open spec fn trimmed(s: Seq<char>) -> Seq<char> {
    trim_end(trim_start(s))
}

/// `s` without its leading `'#'` characters, as `trim_start_matches('#')`
/// gives it.
pub open spec fn strip_leading_hashes(s: Seq<char>) -> Seq<char>
    decreases s.len(),
{
    if s.len() > 0 && s[0] == '#' {
        strip_leading_hashes(s.drop_first())
    } else {
        s
    }
}

proof fn lemma_trim_start_step(s: Seq<char>, a: int)
    requires
        0 <= a < s.len(),
        is_white_space(s[a]),
    ensures
        trim_start(s.subrange(a, s.len() as int)) == trim_start(s.subrange(a + 1, s.len() as int)),
{
    assert(s.subrange(a, s.len() as int).drop_first() =~= s.subrange(a + 1, s.len() as int));
}

proof fn lemma_trim_end_step(s: Seq<char>, a: int, b: int)
    requires
        0 <= a < b <= s.len(),
        is_white_space(s[b - 1]),
    ensures
        trim_end(s.subrange(a, b)) == trim_end(s.subrange(a, b - 1)),
{
    assert(s.subrange(a, b).drop_last() =~= s.subrange(a, b - 1));
}

proof fn lemma_hash_step(s: Seq<char>, a: int)
    requires
        0 <= a < s.len(),
        s[a] == '#',
    ensures
        strip_leading_hashes(s.subrange(a, s.len() as int)) == strip_leading_hashes(
            s.subrange(a + 1, s.len() as int),
        ),
{
    assert(s.subrange(a, s.len() as int).drop_first() =~= s.subrange(a + 1, s.len() as int));
}

/// `s` without leading and trailing white space.
pub fn trim(s: &str) -> (r: String)
    ensures
        r@ == trimmed(s@),
{
    let chars = chars_of(s);
    let n = chars.len();
    let ghost full = s@;
    assert(full.subrange(0, n as int) =~= full);
    let mut a: usize = 0;
    while a < n && is_whitespace(chars[a])
        invariant
            chars@ == full,
            n == full.len(),
            a <= n,
            trim_start(full) == trim_start(full.subrange(a as int, n as int)),
        decreases n - a,
    {
        proof {
            lemma_trim_start_step(full, a as int);
        }
        a = a + 1;
    }
    let ghost start = full.subrange(a as int, n as int);
    assert(trim_start(full) == start) by {
        if a == n {
            assert(start.len() == 0);
        }
    }
    let mut b: usize = n;
    while b > a && is_whitespace(chars[b - 1])
        invariant
            chars@ == full,
            n == full.len(),
            a <= b <= n,
            trim_end(start) == trim_end(full.subrange(a as int, b as int)),
        decreases b - a,
    {
        proof {
            lemma_trim_end_step(full, a as int, b as int);
        }
        b = b - 1;
    }
    assert(trim_end(full.subrange(a as int, b as int)) == full.subrange(a as int, b as int));
    String::from_str(s.substring_char(a, b))
}

/// `s` without its leading `'#'` characters.
pub fn strip_hashes(s: &str) -> (r: String)
    ensures
        r@ == strip_leading_hashes(s@),
{
    let chars = chars_of(s);
    let n = chars.len();
    let ghost full = s@;
    assert(full.subrange(0, n as int) =~= full);
    let mut a: usize = 0;
    while a < n && chars[a] == '#'
        invariant
            chars@ == full,
            n == full.len(),
            a <= n,
            strip_leading_hashes(full) == strip_leading_hashes(full.subrange(a as int, n as int)),
        decreases n - a,
    {
        proof {
            lemma_hash_step(full, a as int);
        }
        a = a + 1;
    }
    String::from_str(s.substring_char(a, n))
}


/// The character sequences of a list of strings.
pub open spec fn views(v: Seq<String>) -> Seq<Seq<char>> {
    v.map_values(|x: String| x@)
}

/// `s` cut at each `'\n'`, the newlines dropped: one piece more than there
/// are newlines, the last piece being what follows the last newline.
pub open spec fn split_at_newlines(s: Seq<char>) -> Seq<Seq<char>>
    decreases s.len(),
{
    if s.len() == 0 {
        seq![Seq::empty()]
    } else {
        let t = split_at_newlines(s.drop_last());
        if s.last() == '\n' {
            t.push(Seq::empty())
        } else {
            t.update(t.len() - 1, t.last().push(s.last()))
        }
    }
}

/// A line that a `'\n'` ended, with the `'\r'` of a `"\r\n"` ending removed.
pub open spec fn strip_carriage_return(line: Seq<char>) -> Seq<char> {
    if line.len() > 0 && line.last() == '\r' {
        line.drop_last()
    } else {
        line
    }
}

/// The lines of `s` as `str::lines` yields them: split at `"\n"` or `"\r\n"`,
/// the endings dropped, and no empty last line after a final line ending.
pub open spec fn lines_of(s: Seq<char>) -> Seq<Seq<char>> {
    let pieces = split_at_newlines(s);
    let ended = pieces.drop_last().map_values(|l: Seq<char>| strip_carriage_return(l));
    if pieces.last().len() == 0 {
        ended
    } else {
        ended.push(pieces.last())
    }
}

/// The lines joined with `'\n'` between each two of them, as
/// `join("\n")` gives it.
pub open spec fn join_lines(ls: Seq<Seq<char>>) -> Seq<char>
    decreases ls.len(),
{
    if ls.len() == 0 {
        Seq::empty()
    } else if ls.len() == 1 {
        ls[0]
    } else {
        join_lines(ls.drop_last()) + seq!['\n'] + ls.last()
    }
}

pub(crate) proof fn lemma_split_nonempty(s: Seq<char>)
    ensures
        split_at_newlines(s).len() >= 1,
    decreases s.len(),
{
    if s.len() > 0 {
        lemma_split_nonempty(s.drop_last());
    }
}

/// The lines of `s`.
pub fn lines(s: &str) -> (r: Vec<String>)
    ensures
        views(r@) == lines_of(s@),
{
    let chars = chars_of(s);
    let n = chars.len();
    let ghost full = s@;
    let mut out: Vec<String> = Vec::new();
    let mut start: usize = 0;
    let mut i: usize = 0;
    assert(full.take(0) =~= Seq::<char>::empty());
    while i < n
        invariant
            chars@ == full,
            full == s@,
            n == full.len(),
            start <= i <= n,
            split_at_newlines(full.take(i as int)).last() == full.subrange(start as int, i as int),
            views(out@) == split_at_newlines(full.take(i as int)).drop_last().map_values(
                |l: Seq<char>| strip_carriage_return(l),
            ),
        decreases n - i,
    {
        let ghost before = split_at_newlines(full.take(i as int));
        proof {
            lemma_split_nonempty(full.take(i as int));
            assert(full.take(i + 1).drop_last() =~= full.take(i as int));
            assert(full.take(i + 1).last() == full[i as int]);
        }
        if chars[i] == '\n' {
            let mut end = i;
            if end > start && chars[end - 1] == '\r' {
                end = end - 1;
            }
            let line = String::from_str(s.substring_char(start, end));
            proof {
                assert(line@ == strip_carriage_return(full.subrange(start as int, i as int)));
            }
            let ghost old_out = out@;
            out.push(line);
            proof {
                let after = split_at_newlines(full.take(i + 1));
                assert(after == before.push(Seq::empty()));
                assert(after.drop_last() =~= before);
                assert(views(out@) =~= views(old_out).push(line@));
                assert(before.map_values(|l: Seq<char>| strip_carriage_return(l)) =~= before.drop_last().map_values(
                    |l: Seq<char>| strip_carriage_return(l),
                ).push(strip_carriage_return(before.last())));
                assert(views(out@) =~= after.drop_last().map_values(
                    |l: Seq<char>| strip_carriage_return(l),
                ));
                assert(full.subrange(i + 1, i + 1) =~= Seq::<char>::empty());
            }
            start = i + 1;
        } else {
            proof {
                let after = split_at_newlines(full.take(i + 1));
                assert(after == before.update(before.len() - 1, before.last().push(full[i as int])));
                assert(after.drop_last() =~= before.drop_last());
                assert(full.subrange(start as int, i + 1) =~= full.subrange(
                    start as int,
                    i as int,
                ).push(full[i as int]));
            }
        }
        i = i + 1;
    }
    assert(full.take(n as int) =~= full);
    if start < n {
        let last = String::from_str(s.substring_char(start, n));
        let ghost old_out = out@;
        out.push(last);
        assert(views(out@) =~= views(old_out).push(last@));
    }
    out
}

/// `ls[from..]` joined with `'\n'` between each two lines.
pub fn join_from(ls: &Vec<String>, from: usize) -> (r: String)
    requires
        from <= ls@.len(),
    ensures
        r@ == join_lines(views(ls@).subrange(from as int, ls@.len() as int)),
{
    let mut r = String::new();
    let mut i = from;
    let n = ls.len();
    let ghost vs = views(ls@);
    proof {
        reveal_strlit("\n");
        assert(vs.subrange(from as int, from as int) =~= Seq::<Seq<char>>::empty());
    }
    while i < n
        invariant
            from <= i <= n,
            n == ls@.len(),
            vs == views(ls@),
            r@ == join_lines(vs.subrange(from as int, i as int)),
            "\n"@ == seq!['\n'],
        decreases n - i,
    {
        let ghost prev = vs.subrange(from as int, i as int);
        let ghost next = vs.subrange(from as int, i + 1);
        assert(next.drop_last() =~= prev);
        assert(next.last() == ls@[i as int]@);
        if i > from {
            r.append("\n");
        }
        r.append(ls[i].as_str());
        proof {
            if i == from {
                assert(prev.len() == 0);
                assert(r@ =~= next[0]);
            } else {
                assert(r@ =~= join_lines(prev) + seq!['\n'] + next.last());
            }
        }
        i = i + 1;
    }
    r
}


/// No `'\r'` stands directly before a `'\n'` in `s`.
pub open spec fn has_no_crlf(s: Seq<char>) -> bool {
    forall|i: int| 0 <= i < s.len() - 1 ==> !(#[trigger] s[i] == '\r' && s[i + 1] == '\n')
}

/// `s` neither begins nor ends with white space.
pub open spec fn is_trimmed(s: Seq<char>) -> bool {
    s.len() > 0 ==> !is_white_space(s[0]) && !is_white_space(s.last())
}

pub(crate) proof fn lemma_split_without_newline(x: Seq<char>)
    requires
        !x.contains('\n'),
    ensures
        split_at_newlines(x) == seq![x],
    decreases x.len(),
{
    if x.len() > 0 {
        let y = x.drop_last();
        assert(!y.contains('\n')) by {
            if y.contains('\n') {
                let i = choose|i: int| 0 <= i < y.len() && y[i] == '\n';
                assert(x[i] == '\n');
            }
        }
        lemma_split_without_newline(y);
        assert(x.last() != '\n') by {
            assert(x[x.len() - 1] == x.last());
        }
        assert(y.push(x.last()) =~= x);
    } else {
        assert(x =~= Seq::<char>::empty());
    }
}

pub(crate) proof fn lemma_split_concat(x: Seq<char>, y: Seq<char>)
    ensures
        split_at_newlines(x + seq!['\n'] + y) == split_at_newlines(x) + split_at_newlines(y),
    decreases y.len(),
{
    let s = x + seq!['\n'] + y;
    if y.len() == 0 {
        assert(s.drop_last() =~= x);
        assert(s.last() == '\n');
        assert(split_at_newlines(x).push(Seq::empty()) =~= split_at_newlines(x) + seq![
            Seq::<char>::empty(),
        ]);
    } else {
        lemma_split_concat(x, y.drop_last());
        lemma_split_nonempty(y.drop_last());
        assert(s.drop_last() =~= x + seq!['\n'] + y.drop_last());
        assert(s.last() == y.last());
        let a = split_at_newlines(x);
        let b = split_at_newlines(y.drop_last());
        if y.last() == '\n' {
            assert((a + b).push(Seq::empty()) =~= a + b.push(Seq::empty()));
        } else {
            assert((a + b).update((a + b).len() - 1, (a + b).last().push(y.last())) =~= a
                + b.update(b.len() - 1, b.last().push(y.last())));
        }
    }
}

proof fn lemma_join_extend_last(t: Seq<Seq<char>>, c: char)
    requires
        t.len() >= 1,
    ensures
        join_lines(t.update(t.len() - 1, t.last().push(c))) == join_lines(t).push(c),
{
    let u = t.update(t.len() - 1, t.last().push(c));
    if t.len() > 1 {
        assert(u.drop_last() =~= t.drop_last());
        assert(join_lines(u) =~= join_lines(t).push(c));
    }
}

pub(crate) proof fn lemma_join_split(c: Seq<char>)
    ensures
        join_lines(split_at_newlines(c)) == c,
    decreases c.len(),
{
    if c.len() == 0 {
        assert(c =~= Seq::<char>::empty());
    } else {
        let d = c.drop_last();
        lemma_join_split(d);
        lemma_split_nonempty(d);
        let t = split_at_newlines(d);
        if c.last() == '\n' {
            let u = t.push(Seq::<char>::empty());
            assert(u.drop_last() =~= t);
            assert(join_lines(u) =~= d + seq!['\n'] + Seq::<char>::empty());
            assert(d.push('\n') =~= c);
        } else {
            lemma_join_extend_last(t, c.last());
            assert(d.push(c.last()) =~= c);
        }
    }
}

pub(crate) proof fn lemma_split_last(c: Seq<char>)
    requires
        c.len() > 0,
        c.last() != '\n',
    ensures
        split_at_newlines(c).last().len() > 0,
        split_at_newlines(c).last().last() == c.last(),
{
    lemma_split_nonempty(c.drop_last());
}

pub(crate) proof fn lemma_split_ended_pieces(c: Seq<char>)
    requires
        has_no_crlf(c),
    ensures
        forall|k: int|
            0 <= k < split_at_newlines(c).len() - 1 ==> strip_carriage_return(
                #[trigger] split_at_newlines(c)[k],
            ) == split_at_newlines(c)[k],
    decreases c.len(),
{
    if c.len() > 0 {
        let d = c.drop_last();
        assert(has_no_crlf(d)) by {
            assert forall|i: int| 0 <= i < d.len() - 1 implies !(#[trigger] d[i] == '\r' && d[i
                + 1] == '\n') by {
                assert(d[i] == c[i] && d[i + 1] == c[i + 1]);
            }
        }
        lemma_split_ended_pieces(d);
        lemma_split_nonempty(d);
        let t = split_at_newlines(d);
        let u = split_at_newlines(c);
        if c.last() == '\n' {
            assert forall|k: int| 0 <= k < u.len() - 1 implies strip_carriage_return(
                #[trigger] u[k],
            ) == u[k] by {
                if k == t.len() - 1 && t.last().len() > 0 {
                    lemma_split_last(d);
                    assert(c[c.len() - 2] == d.last());
                    assert(c[c.len() - 1] == '\n');
                }
            }
        } else {
            assert forall|k: int| 0 <= k < u.len() - 1 implies strip_carriage_return(
                #[trigger] u[k],
            ) == u[k] by {
                assert(u[k] == t[k]);
            }
        }
    }
}

/// For text without `"\r\n"` that does not end with a newline, the lines are
/// the pieces between newlines, and joining them gives the text back.
pub(crate) proof fn lemma_lines_join(c: Seq<char>)
    requires
        has_no_crlf(c),
        c.len() > 0,
        c.last() != '\n',
    ensures
        lines_of(c) == split_at_newlines(c),
        join_lines(lines_of(c)) == c,
{
    lemma_split_ended_pieces(c);
    lemma_split_last(c);
    lemma_join_split(c);
    let p = split_at_newlines(c);
    let ended = p.drop_last().map_values(|l: Seq<char>| strip_carriage_return(l));
    assert(ended.push(p.last()) =~= p);
}

pub(crate) proof fn lemma_join_prepend(a: Seq<char>, ls: Seq<Seq<char>>)
    requires
        ls.len() >= 1,
    ensures
        join_lines(seq![a] + ls) == a + seq!['\n'] + join_lines(ls),
    decreases ls.len(),
{
    let all = seq![a] + ls;
    if ls.len() == 1 {
        assert(all.drop_last() =~= seq![a]);
        assert(join_lines(seq![a]) == a);
        assert(all.last() == ls[0]);
        assert(join_lines(all) =~= a + seq!['\n'] + join_lines(ls));
    } else {
        lemma_join_prepend(a, ls.drop_last());
        assert(all.drop_last() =~= seq![a] + ls.drop_last());
        assert(all.last() == ls.last());
        assert(join_lines(all) =~= a + seq!['\n'] + join_lines(ls));
    }
}

pub(crate) proof fn lemma_trimmed_unchanged(c: Seq<char>)
    requires
        is_trimmed(c),
    ensures
        trim_start(c) == c,
        trim_end(c) == c,
        trimmed(c) == c,
{
}

pub(crate) proof fn lemma_trim_leading_white(w: char, c: Seq<char>)
    requires
        is_white_space(w),
    ensures
        trim_start(seq![w] + c) == trim_start(c),
{
    assert((seq![w] + c).drop_first() =~= c);
}


/// Appends `c` with `String::push`.
#[verifier::external_body]
pub(crate) fn push_char(s: &mut String, c: char)
    ensures
        final(s)@ == old(s)@.push(c),
{
    s.push(c);
}

/// Removes the last character with `String::pop`, which returns it, or
/// returns `None` and leaves the string alone when it is empty.
#[verifier::external_body]
pub(crate) fn pop_char(s: &mut String) -> (r: Option<char>)
    ensures
        old(s)@.len() == 0 ==> r is None && final(s)@ == old(s)@,
        old(s)@.len() > 0 ==> r == Some(old(s)@.last()) && final(s)@ == old(s)@.drop_last(),
{
    s.pop()
}

} // verus!
