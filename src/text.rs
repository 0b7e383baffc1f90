//! Mathematical model of rendered text: lines, repetition and concatenation.
use vstd::prelude::*;

verus! {

/// The lines `ls` joined with a newline between each two of them.
pub open spec fn join_lines(ls: Seq<Seq<char>>) -> Seq<char>
    decreases ls.len(),
{
    if ls.len() == 0 {
        Seq::empty()
    } else if ls.len() == 1 {
        ls[0]
    } else {
        join_lines(ls.drop_last()) + seq!['\n'] + ls.last()
    }
}

/// `s` written `n` times in a row.
pub open spec fn repeat(s: Seq<char>, n: nat) -> Seq<char>
    decreases n,
{
    if n == 0 {
        Seq::empty()
    } else {
        repeat(s, (n - 1) as nat) + s
    }
}

/// The pieces `ss` written one after the other.
pub open spec fn concat(ss: Seq<Seq<char>>) -> Seq<char>
    decreases ss.len(),
{
    if ss.len() == 0 {
        Seq::empty()
    } else {
        concat(ss.drop_last()) + ss.last()
    }
}

/// Appends `s` to `acc` `n` times.
pub(crate) fn push_repeated(acc: &mut String, s: &str, n: usize)
    ensures
        final(acc)@ == old(acc)@ + repeat(s@, n as nat),
{
    let ghost start = acc@;
    let mut k: usize = 0;
    while k < n
        invariant
            k <= n,
            acc@ == start + repeat(s@, k as nat),
        decreases n - k,
    {
        acc.append(s);
        k = k + 1;
        assert(acc@ =~= start + repeat(s@, k as nat));
    }
}

} // verus!

verus! {

/// `n` copies of the line `line`.
pub open spec fn copies(line: Seq<char>, n: nat) -> Seq<Seq<char>> {
    Seq::new(n, |_i: int| line)
}

/// One more copy of a line adds a newline and the line to the joined text.
pub proof fn lemma_join_copies_step(line: Seq<char>, n: nat)
    requires
        n >= 1,
    ensures
        join_lines(copies(line, n + 1)) == join_lines(copies(line, n)) + seq!['\n'] + line,
{
    assert(copies(line, n + 1).drop_last() =~= copies(line, n));
}

/// A single character repeated is the sequence of that character.
pub proof fn lemma_repeat_char(c: char, n: nat)
    ensures
        repeat(seq![c], n) =~= Seq::new(n, |_i: int| c),
    decreases n,
{
    if n > 0 {
        lemma_repeat_char(c, (n - 1) as nat);
    }
}

/// Appends `n` copies of the line `line`, joined by newlines, to `acc`.
pub(crate) fn push_lines(acc: &mut String, line: &str, n: usize)
    ensures
        final(acc)@ == old(acc)@ + join_lines(copies(line@, n as nat)),
{
    let ghost start = acc@;
    let mut k: usize = 0;
    while k < n
        invariant
            k <= n,
            acc@ == start + join_lines(copies(line@, k as nat)) + (if 0 < k < n {
                seq!['\n']
            } else {
                Seq::empty()
            }),
        decreases n - k,
    {
        acc.append(line);
        proof {
            if k >= 1 {
                lemma_join_copies_step(line@, k as nat);
            } else {
                assert(copies(line@, 1).drop_last() =~= copies(line@, 0));
            }
        }
        if k + 1 != n {
            acc.append("\n");
            proof { reveal_strlit("\n"); }
        }
        k = k + 1;
        assert(acc@ =~= start + join_lines(copies(line@, k as nat)) + (if 0 < k < n {
            seq!['\n']
        } else {
            Seq::empty()
        }));
    }
}

} // verus!

verus! {

/// The joined pieces are at least as long as any one piece.
pub proof fn lemma_concat_len_ge(ss: Seq<Seq<char>>, k: int)
    requires
        0 <= k < ss.len(),
    ensures
        concat(ss).len() >= ss[k].len(),
    decreases ss.len(),
{
    if k < ss.len() - 1 {
        lemma_concat_len_ge(ss.drop_last(), k);
    }
}

/// Every character of the joined pieces is a character of some piece.
pub proof fn lemma_concat_chars(ss: Seq<Seq<char>>, p: spec_fn(char) -> bool)
    requires
        forall|k: int, j: int| 0 <= k < ss.len() && 0 <= j < ss[k].len() ==> p(#[trigger] ss[k][j]),
    ensures
        forall|j: int| 0 <= j < concat(ss).len() ==> p(#[trigger] concat(ss)[j]),
    decreases ss.len(),
{
    if ss.len() > 0 {
        lemma_concat_chars(ss.drop_last(), p);
        let a = concat(ss.drop_last());
        assert forall|j: int| 0 <= j < concat(ss).len() implies p(#[trigger] concat(ss)[j]) by {
            if j >= a.len() {
                assert(concat(ss)[j] == ss[ss.len() - 1][j - a.len()]);
            } else {
                assert(concat(ss)[j] == a[j]);
            }
        }
    }
}

/// Joins the texts of `v` one after the other.
pub(crate) fn concat_strings(v: &Vec<String>) -> (r: String)
    ensures
        r@ == concat(v@.map_values(|s: String| s@)),
{
    let ghost views = v@.map_values(|s: String| s@);
    let mut acc = String::new();
    let mut i: usize = 0;
    while i < v.len()
        invariant
            i <= v.len(),
            views == v@.map_values(|s: String| s@),
            acc@ == concat(views.take(i as int)),
        decreases v.len() - i,
    {
        acc.append(v[i].as_str());
        assert(views.take(i + 1).drop_last() =~= views.take(i as int));
        i = i + 1;
    }
    assert(views.take(i as int) =~= views);
    acc
}

} // verus!

verus! {

/// No line holds a newline.
pub open spec fn no_newlines(ls: Seq<Seq<char>>) -> bool {
    forall|i: int, j: int| 0 <= i < ls.len() && 0 <= j < ls[i].len() ==> #[trigger] ls[i][j] != '\n'
}

/// The texts of a sequence of strings.
pub open spec fn texts(v: Seq<String>) -> Seq<Seq<char>> {
    v.map_values(|s: String| s@)
}

/// The lines of `s`: the pieces between its newlines.
pub fn split_lines(s: &str) -> (r: Vec<String>)
    ensures
        r.len() >= 1,
        no_newlines(texts(r@)),
        join_lines(texts(r@)) == s@,
{
    let n = s.unicode_len();
    let mut lines: Vec<String> = Vec::new();
    let mut start: usize = 0;
    let mut i: usize = 0;
    while i < n
        invariant
            n == s@.len(),
            start <= i <= n,
            no_newlines(texts(lines@)),
            s@.take(start as int) == (if lines.len() == 0 {
                Seq::empty()
            } else {
                join_lines(texts(lines@)) + seq!['\n']
            }),
            forall|j: int| start <= j < i ==> #[trigger] s@[j] != '\n',
        decreases n - i,
    {
        if s.get_char(i) == '\n' {
            let line = s.substring_char(start, i).to_owned();
            let ghost before = texts(lines@);
            lines.push(line);
            proof {
                assert(texts(lines@) =~= before.push(line@));
                assert(texts(lines@).drop_last() =~= before);
                assert(s@.take(i + 1) =~= s@.take(start as int) + line@ + seq!['\n']);
                if before.len() == 0 {
                    assert(s@.take(start as int) =~= Seq::<char>::empty());
                }
            }
            start = i + 1;
        }
        i = i + 1;
    }
    let line = s.substring_char(start, n).to_owned();
    let ghost before = texts(lines@);
    lines.push(line);
    proof {
        assert(texts(lines@) =~= before.push(line@));
        assert(texts(lines@).drop_last() =~= before);
        assert(s@ =~= s@.take(start as int) + line@);
        if before.len() == 0 {
            assert(s@.take(start as int) =~= Seq::<char>::empty());
        }
    }
    lines
}

} // verus!

verus! {

/// A text has one way only to be cut into lines free of newlines.
pub proof fn lemma_join_lines_injective(a: Seq<Seq<char>>, b: Seq<Seq<char>>)
    requires
        a.len() >= 1,
        b.len() >= 1,
        no_newlines(a),
        no_newlines(b),
        join_lines(a) == join_lines(b),
    ensures
        a == b,
    decreases a.len() + b.len(),
{
    let t = join_lines(a);
    if a.len() == 1 && b.len() == 1 {
        assert(a =~= b);
    } else if a.len() == 1 {
        let p = join_lines(b.drop_last()).len() as int;
        assert(t[p] == '\n');
        assert(t[p] == a[0][p]);
    } else if b.len() == 1 {
        let p = join_lines(a.drop_last()).len() as int;
        assert(t[p] == '\n');
        assert(t[p] == b[0][p]);
    } else {
        let la = a.last();
        let lb = b.last();
        let n = t.len() as int;
        if la.len() < lb.len() {
            let p = n - la.len() - 1;
            assert(t[p] == '\n');
            assert(t[p] == lb[lb.len() - la.len() - 1]);
        } else if lb.len() < la.len() {
            let p = n - lb.len() - 1;
            assert(t[p] == '\n');
            assert(t[p] == la[la.len() - lb.len() - 1]);
        } else {
            assert(la =~= t.subrange(n - la.len(), n));
            assert(lb =~= t.subrange(n - lb.len(), n));
            assert(join_lines(a.drop_last()) =~= t.subrange(0, n - la.len() - 1));
            assert(join_lines(b.drop_last()) =~= t.subrange(0, n - lb.len() - 1));
            lemma_join_lines_injective(a.drop_last(), b.drop_last());
            assert(a =~= a.drop_last().push(la));
            assert(b =~= b.drop_last().push(lb));
        }
    }
}

/// Pieces of at most one character each join to no more characters than
/// there are pieces.
pub proof fn lemma_concat_len_le(ss: Seq<Seq<char>>)
    requires
        forall|k: int| 0 <= k < ss.len() ==> (#[trigger] ss[k]).len() <= 1,
    ensures
        concat(ss).len() <= ss.len(),
    decreases ss.len(),
{
    if ss.len() > 0 {
        lemma_concat_len_le(ss.drop_last());
    }
}

} // verus!
