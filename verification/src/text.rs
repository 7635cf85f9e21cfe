//! Character-level text processing: whitespace, tokens, separators, lines.
//!
//! Everything here works on sequences of Unicode scalar values (`char`).
//! The spec functions state what the corresponding `str` operations of the
//! standard library compute; the executable functions compute them on `Vec<char>`.

use vstd::prelude::*;

verus! {

/// The Unicode `White_Space` property, which `char::is_whitespace` tests.
pub open spec fn is_white_space(c: char) -> bool {
    ||| '\u{9}' <= c <= '\u{d}'
    ||| c == ' '
    ||| c == '\u{85}'
    ||| c == '\u{a0}'
    ||| c == '\u{1680}'
    ||| '\u{2000}' <= c <= '\u{200a}'
    ||| c == '\u{2028}'
    ||| c == '\u{2029}'
    ||| c == '\u{202f}'
    ||| c == '\u{205f}'
    ||| c == '\u{3000}'
}

/// Tests a character for the Unicode `White_Space` property.
pub fn is_white_space_char(c: char) -> (b: bool)
    ensures
        b == is_white_space(c),
{
    ('\u{9}' <= c && c <= '\u{d}') || c == ' ' || c == '\u{85}' || c == '\u{a0}' || c == '\u{1680}'
        || ('\u{2000}' <= c && c <= '\u{200a}') || c == '\u{2028}' || c == '\u{2029}' || c
        == '\u{202f}' || c == '\u{205f}' || c == '\u{3000}'
}

/// The characters of a string slice, in order.
pub fn chars_of(s: &str) -> (v: Vec<char>)
    ensures
        v@ == s@,
{
    let mut v: Vec<char> = Vec::new();
    for c in it: s.chars()
        invariant
            v@ == it.seq().take(it.index() as int),
    {
        v.push(c);
    }
    v
}


/// Runs over `s` from the left, collecting the completed whitespace-separated
/// tokens and the token still being read.
pub open spec fn token_scan(s: Seq<char>) -> (Seq<Seq<char>>, Seq<char>)
    decreases s.len(),
{
    if s.len() == 0 {
        (seq![], seq![])
    } else {
        let (done, cur) = token_scan(s.drop_last());
        let c = s.last();
        if is_white_space(c) {
            if cur.len() > 0 {
                (done.push(cur), seq![])
            } else {
                (done, seq![])
            }
        } else {
            (done, cur.push(c))
        }
    }
}

/// What `str::split_whitespace` yields: the maximal runs of characters
/// without the `White_Space` property, in order.
pub open spec fn split_whitespace(s: Seq<char>) -> Seq<Seq<char>> {
    let (done, cur) = token_scan(s);
    if cur.len() > 0 {
        done.push(cur)
    } else {
        done
    }
}

/// The character sequences held by a list of character vectors.
pub open spec fn char_seqs(vs: Seq<Vec<char>>) -> Seq<Seq<char>> {
    vs.map_values(|v: Vec<char>| v@)
}

/// Splits `s` into its whitespace-separated tokens.
pub fn split_whitespace_chars(s: &Vec<char>) -> (tokens: Vec<Vec<char>>)
    ensures
        char_seqs(tokens@) == split_whitespace(s@),
{
    let mut done: Vec<Vec<char>> = Vec::new();
    let mut cur: Vec<char> = Vec::new();
    let mut i: usize = 0;
    while i < s.len()
        invariant
            i <= s.len(),
            (char_seqs(done@), cur@) == token_scan(s@.take(i as int)),
        decreases s.len() - i,
    {
        let c = s[i];
        assert(s@.take(i + 1).drop_last() =~= s@.take(i as int));
        if is_white_space_char(c) {
            if cur.len() > 0 {
                let ghost before = char_seqs(done@);
                let ghost last = cur@;
                done.push(cur);
                assert(char_seqs(done@) =~= before.push(last));
                cur = Vec::new();
            }
        } else {
            cur.push(c);
        }
        i = i + 1;
    }
    assert(s@.take(s.len() as int) =~= s@);
    if cur.len() > 0 {
        let ghost before = char_seqs(done@);
        let ghost last = cur@;
        done.push(cur);
        assert(char_seqs(done@) =~= before.push(last));
    }
    done
}


/// Whether `p` occurs in `s` starting at index `i`.
pub open spec fn occurs_at(s: Seq<char>, p: Seq<char>, i: int) -> bool {
    0 <= i && i + p.len() <= s.len() && s.subrange(i, i + p.len()) == p
}

/// What `str::contains` with a string pattern answers: `p` occurs somewhere in `s`.
pub open spec fn contains(s: Seq<char>, p: Seq<char>) -> bool {
    exists|i: int| #[trigger] occurs_at(s, p, i)
}

/// Tests whether `p` occurs in `s` at index `i`.
fn occurs_at_index(s: &Vec<char>, p: &Vec<char>, i: usize) -> (b: bool)
    requires
        i + p.len() <= s.len(),
    ensures
        b == occurs_at(s@, p@, i as int),
{
    let mut j: usize = 0;
    while j < p.len()
        invariant
            i + p.len() <= s.len(),
            j <= p.len(),
            s@.subrange(i as int, i + j) =~= p@.take(j as int),
        decreases p.len() - j,
    {
        if s[i + j] != p[j] {
            assert(s@.subrange(i as int, i + p.len())[j as int] != p@[j as int]);
            return false;
        }
        j = j + 1;
        assert(s@.subrange(i as int, i + j) =~= p@.take(j as int));
    }
    assert(p@.take(p.len() as int) =~= p@);
    true
}

/// Tests whether `p` occurs in `s`.
pub fn contains_chars(s: &Vec<char>, p: &Vec<char>) -> (b: bool)
    ensures
        b == contains(s@, p@),
{
    if p.len() > s.len() {
        assert forall|i: int| !#[trigger] occurs_at(s@, p@, i) by {}
        return false;
    }
    if p.len() == 0 {
        assert(s@.subrange(0, 0) =~= p@);
        assert(occurs_at(s@, p@, 0));
        return true;
    }
    let last = s.len() - p.len();
    let mut i: usize = 0;
    while i <= last
        invariant
            last == s.len() - p.len(),
            0 < p.len() <= s.len(),
            i <= last + 1,
            forall|k: int| 0 <= k < i ==> !#[trigger] occurs_at(s@, p@, k),
        decreases last + 1 - i,
    {
        if occurs_at_index(s, p, i) {
            return true;
        }
        i = i + 1;
    }
    assert forall|k: int| !#[trigger] occurs_at(s@, p@, k) by {
        if 0 <= k < i {
        }
    }
    false
}

/// What `str::split` with a non-empty string pattern yields: the pieces of `s`
/// between the non-overlapping occurrences of `p`, found from the left.
pub open spec fn split_on(s: Seq<char>, p: Seq<char>) -> Seq<Seq<char>>
    decreases s.len(),
{
    if p.len() == 0 || s.len() < p.len() {
        seq![s]
    } else if s.take(p.len() as int) == p {
        seq![Seq::<char>::empty()] + split_on(s.skip(p.len() as int), p)
    } else {
        let rest = split_on(s.drop_first(), p);
        rest.update(0, seq![s[0]] + rest[0])
    }
}

/// `split_on` always yields at least one piece.
pub proof fn lemma_split_on_nonempty(s: Seq<char>, p: Seq<char>)
    ensures
        split_on(s, p).len() >= 1,
    decreases s.len(),
{
    if p.len() == 0 || s.len() < p.len() {
    } else if s.take(p.len() as int) == p {
        lemma_split_on_nonempty(s.skip(p.len() as int), p);
    } else {
        lemma_split_on_nonempty(s.drop_first(), p);
    }
}

/// The pieces `r` with `cur` put in front of the first one.
spec fn prefix_first(cur: Seq<char>, r: Seq<Seq<char>>) -> Seq<Seq<char>> {
    r.update(0, cur + r[0])
}

/// Splits `s` at the non-overlapping occurrences of the non-empty pattern `p`.
pub fn split_on_chars(s: &Vec<char>, p: &Vec<char>) -> (pieces: Vec<Vec<char>>)
    requires
        p.len() > 0,
    ensures
        char_seqs(pieces@) == split_on(s@, p@),
{
    let mut done: Vec<Vec<char>> = Vec::new();
    let mut cur: Vec<char> = Vec::new();
    let mut i: usize = 0;
    proof {
        lemma_split_on_nonempty(s@, p@);
        assert(s@.skip(0) =~= s@);
        assert(prefix_first(cur@, split_on(s@, p@)) =~= split_on(s@, p@));
    }
    while i < s.len() && p.len() <= s.len() - i
        invariant
            p.len() > 0,
            i <= s.len(),
            split_on(s@, p@) == char_seqs(done@) + prefix_first(cur@, split_on(s@.skip(i as int), p@)),
        decreases s.len() - i,
    {
        let ghost rest = s@.skip(i as int);
        assert(rest.take(p.len() as int) =~= s@.subrange(i as int, i + p.len()));
        if occurs_at_index(s, p, i) {
            assert(rest.skip(p.len() as int) =~= s@.skip(i + p.len()));
            proof {
                lemma_split_on_nonempty(s@.skip(i + p.len()), p@);
            }
            let ghost before = char_seqs(done@);
            let ghost piece = cur@;
            done.push(cur);
            assert(char_seqs(done@) =~= before.push(piece));
            cur = Vec::new();
            i = i + p.len();
            assert(prefix_first(seq![], split_on(s@.skip(i as int), p@)) =~= split_on(s@.skip(i as int), p@));
            assert(prefix_first(piece, split_on(rest, p@)) =~= seq![piece] + split_on(s@.skip(i as int), p@));
            assert(before + (seq![piece] + split_on(s@.skip(i as int), p@)) =~= before.push(piece) + split_on(s@.skip(i as int), p@));
        } else {
            assert(rest.drop_first() =~= s@.skip(i + 1));
            proof {
                lemma_split_on_nonempty(s@.skip(i + 1), p@);
            }
            let ghost old_cur = cur@;
            let ghost r = split_on(s@.skip(i + 1), p@);
            assert(rest.take(p.len() as int) != p@);
            assert(split_on(rest, p@) == r.update(0, seq![rest[0]] + r[0]));
            assert(rest[0] == s@[i as int]);
            cur.push(s[i]);
            i = i + 1;
            assert(old_cur + (seq![rest[0]] + r[0]) =~= cur@ + r[0]);
            assert(prefix_first(old_cur, split_on(rest, p@)) =~= prefix_first(cur@, split_on(s@.skip(i as int), p@)));
        }
    }
    let ghost rest = s@.skip(i as int);
    assert(split_on(rest, p@) == seq![rest]);
    while i < s.len()
        invariant
            i <= s.len(),
            split_on(s@, p@) == char_seqs(done@) + seq![cur@ + s@.skip(i as int)],
        decreases s.len() - i,
    {
        let ghost old_cur = cur@;
        cur.push(s[i]);
        assert(old_cur + s@.skip(i as int) =~= cur@ + s@.skip(i + 1));
        i = i + 1;
    }
    assert(cur@ + s@.skip(i as int) =~= cur@);
    let ghost before = char_seqs(done@);
    let ghost piece = cur@;
    done.push(cur);
    assert(char_seqs(done@) =~= before.push(piece));
    done
}


/// The characters of `v` from index `start` up to, not including, `end`.
pub fn subrange_chars(v: &Vec<char>, start: usize, end: usize) -> (r: Vec<char>)
    requires
        start <= end <= v.len(),
    ensures
        r@ == v@.subrange(start as int, end as int),
{
    let mut r: Vec<char> = Vec::new();
    let mut i: usize = start;
    while i < end
        invariant
            start <= i <= end <= v.len(),
            r@ == v@.subrange(start as int, i as int),
        decreases end - i,
    {
        r.push(v[i]);
        i = i + 1;
        assert(r@ =~= v@.subrange(start as int, i as int));
    }
    r
}

/// `s` without its leading `White_Space` characters.
pub open spec fn trim_start(s: Seq<char>) -> Seq<char>
    decreases s.len(),
{
    if s.len() > 0 && is_white_space(s[0]) {
        trim_start(s.drop_first())
    } else {
        s
    }
}

/// `s` without its trailing `White_Space` characters.
pub open spec fn trim_end(s: Seq<char>) -> Seq<char>
    decreases s.len(),
{
    if s.len() > 0 && is_white_space(s.last()) {
        trim_end(s.drop_last())
    } else {
        s
    }
}

/// What `str::trim` yields: `s` without leading and trailing `White_Space` characters.
pub open spec fn trim(s: Seq<char>) -> Seq<char> {
    trim_end(trim_start(s))
}

/// Removes leading and trailing whitespace.
pub fn trim_chars(s: &Vec<char>) -> (r: Vec<char>)
    ensures
        r@ == trim(s@),
{
    let mut a: usize = 0;
    assert(s@.skip(0) =~= s@);
    while a < s.len() && is_white_space_char(s[a])
        invariant
            a <= s.len(),
            trim_start(s@) == trim_start(s@.skip(a as int)),
        decreases s.len() - a,
    {
        assert(s@.skip(a as int).drop_first() =~= s@.skip(a + 1));
        a = a + 1;
    }
    assert(trim_start(s@) == s@.skip(a as int));
    let mut b: usize = s.len();
    assert(s@.skip(a as int) =~= s@.subrange(a as int, b as int));
    while b > a && is_white_space_char(s[b - 1])
        invariant
            a <= b <= s.len(),
            trim(s@) == trim_end(s@.subrange(a as int, b as int)),
        decreases b - a,
    {
        assert(s@.subrange(a as int, b as int).drop_last() =~= s@.subrange(a as int, b - 1));
        b = b - 1;
    }
    subrange_chars(s, a, b)
}

/// A line without the carriage return that ended it, if any.
pub open spec fn strip_cr(l: Seq<char>) -> Seq<char> {
    if l.len() > 0 && l.last() == '\r' {
        l.drop_last()
    } else {
        l
    }
}

/// What `str::lines` yields: `s` split at `\n`, each line that a `\n` ended
/// without a `\r` just before that `\n`; a final `\n` starts no further line.
pub open spec fn lines(s: Seq<char>) -> Seq<Seq<char>> {
    let pieces = split_on(s, seq!['\n']);
    if s.len() == 0 {
        seq![]
    } else if s.last() == '\n' {
        pieces.drop_last().map_values(|l: Seq<char>| strip_cr(l))
    } else {
        pieces.drop_last().map_values(|l: Seq<char>| strip_cr(l)).push(pieces.last())
    }
}

/// Splits `s` into its lines.
pub fn lines_of(s: &Vec<char>) -> (r: Vec<Vec<char>>)
    ensures
        char_seqs(r@) == lines(s@),
{
    let mut r: Vec<Vec<char>> = Vec::new();
    if s.len() == 0 {
        assert(char_seqs(r@) =~= lines(s@));
        return r;
    }
    let newline = vec!['\n'];
    assert(newline@ =~= seq!['\n']);
    let pieces = split_on_chars(s, &newline);
    proof {
        lemma_split_on_nonempty(s@, newline@);
    }
    let ghost all = split_on(s@, newline@);
    let ghost ended = all.drop_last().map_values(|l: Seq<char>| strip_cr(l));
    let n = pieces.len() - 1;
    let mut j: usize = 0;
    while j < n
        invariant
            n + 1 == pieces.len(),
            j <= n,
            char_seqs(pieces@) == all,
            ended == all.drop_last().map_values(|l: Seq<char>| strip_cr(l)),
            char_seqs(r@) =~= ended.take(j as int),
        decreases n - j,
    {
        assert(pieces@[j as int]@ == all[j as int]);
        let len = pieces[j].len();
        let end = if len > 0 && pieces[j][len - 1] == '\r' {
            len - 1
        } else {
            len
        };
        let line = subrange_chars(&pieces[j], 0, end);
        assert(line@ =~= strip_cr(all[j as int]));
        assert(all.drop_last()[j as int] == all[j as int]);
        assert(ended[j as int] == strip_cr(all[j as int]));
        let ghost before = char_seqs(r@);
        let ghost added = line@;
        r.push(line);
        assert(char_seqs(r@) =~= before.push(added));
        j = j + 1;
        assert(char_seqs(r@) =~= ended.take(j as int));
    }
    assert(ended.take(n as int) =~= ended);
    if s[s.len() - 1] != '\n' {
        assert(pieces@[n as int]@ == all.last());
        let last = subrange_chars(&pieces[n], 0, pieces[n].len());
        assert(last@ =~= all.last());
        let ghost before = char_seqs(r@);
        r.push(last);
        assert(char_seqs(r@) =~= before.push(all.last()));
        assert(char_seqs(r@) =~= ended.push(all.last()));
    }
    r
}


/// Tests two character sequences for equality.
pub fn chars_equal(a: &Vec<char>, b: &Vec<char>) -> (eq: bool)
    ensures
        eq == (a@ == b@),
{
    if a.len() != b.len() {
        return false;
    }
    let mut i: usize = 0;
    while i < a.len()
        invariant
            a.len() == b.len(),
            i <= a.len(),
            a@.take(i as int) == b@.take(i as int),
        decreases a.len() - i,
    {
        if a[i] != b[i] {
            return false;
        }
        assert(a@.take(i + 1) =~= a@.take(i as int).push(a@[i as int]));
        assert(b@.take(i + 1) =~= b@.take(i as int).push(b@[i as int]));
        i = i + 1;
    }
    assert(a@.take(a.len() as int) =~= a@);
    assert(b@.take(b.len() as int) =~= b@);
    true
}


/// The first `n` bytes of `b`.
pub fn subrange_bytes(b: &[u8], n: usize) -> (r: Vec<u8>)
    requires
        n <= b.len(),
    ensures
        r@ == b@.take(n as int),
{
    let mut r: Vec<u8> = Vec::new();
    let mut i: usize = 0;
    while i < n
        invariant
            i <= n <= b.len(),
            r@ == b@.take(i as int),
        decreases n - i,
    {
        r.push(b[i]);
        i = i + 1;
        assert(r@ =~= b@.take(i as int));
    }
    r
}


/// Pieces put back together with `p` between each two.
pub open spec fn join_with(pieces: Seq<Seq<char>>, p: Seq<char>) -> Seq<char>
    decreases pieces.len(),
{
    if pieces.len() == 0 {
        seq![]
    } else if pieces.len() == 1 {
        pieces[0]
    } else {
        pieces[0] + p + join_with(pieces.drop_first(), p)
    }
}

/// Joining pieces after extending the first one extends the result alike.
proof fn lemma_join_with_front(r: Seq<Seq<char>>, x: Seq<char>, p: Seq<char>)
    requires
        r.len() >= 1,
    ensures
        join_with(r.update(0, x + r[0]), p) == x + join_with(r, p),
{
    let u = r.update(0, x + r[0]);
    if r.len() == 1 {
    } else {
        assert(u.drop_first() =~= r.drop_first());
        assert(x + r[0] + p + join_with(r.drop_first(), p) =~= x + (r[0] + p + join_with(r.drop_first(), p)));
    }
}

/// Splitting at a pattern loses nothing: joining the pieces with the
/// pattern gives the text back.
pub proof fn lemma_split_on_join(s: Seq<char>, p: Seq<char>)
    requires
        p.len() > 0,
    ensures
        join_with(split_on(s, p), p) == s,
    decreases s.len(),
{
    if s.len() < p.len() {
    } else if s.take(p.len() as int) == p {
        let rest = s.skip(p.len() as int);
        lemma_split_on_join(rest, p);
        lemma_split_on_nonempty(rest, p);
        let pieces = seq![Seq::<char>::empty()] + split_on(rest, p);
        assert(pieces.drop_first() =~= split_on(rest, p));
        assert(Seq::<char>::empty() + p + rest =~= s);
    } else {
        lemma_split_on_join(s.drop_first(), p);
        lemma_split_on_nonempty(s.drop_first(), p);
        lemma_join_with_front(split_on(s.drop_first(), p), seq![s[0]], p);
        assert(seq![s[0]] + s.drop_first() =~= s);
    }
}

/// Splitting at a single character leaves that character in no piece, and
/// puts in the pieces no character that the text does not hold.
pub proof fn lemma_split_on_char_pieces(s: Seq<char>, p: Seq<char>, d: char)
    requires
        p.len() == 1,
        d == p[0] || forall|k: int| 0 <= k < s.len() ==> s[k] != d,
    ensures
        forall|i: int, j: int|
            0 <= i < split_on(s, p).len() && 0 <= j < split_on(s, p)[i].len() ==> #[trigger] split_on(s, p)[i][j] != d,
    decreases s.len(),
{
    if s.len() < p.len() {
    } else if s.take(p.len() as int) == p {
        let rest = s.skip(1);
        assert forall|k: int| 0 <= k < rest.len() implies d == p[0] || rest[k] != d by {
            if d != p[0] {
                assert(rest[k] == s[k + 1]);
            }
        }
        lemma_split_on_char_pieces(rest, p, d);
        let pieces = seq![Seq::<char>::empty()] + split_on(rest, p);
        assert forall|i: int, j: int| 0 <= i < pieces.len() && 0 <= j < pieces[i].len() implies #[trigger] pieces[i][j] != d by {
            assert(pieces[i] == split_on(rest, p)[i - 1]);
        }
    } else {
        let rest = s.drop_first();
        assert forall|k: int| 0 <= k < rest.len() implies d == p[0] || rest[k] != d by {
            if d != p[0] {
                assert(rest[k] == s[k + 1]);
            }
        }
        lemma_split_on_char_pieces(rest, p, d);
        lemma_split_on_nonempty(rest, p);
        let r = split_on(rest, p);
        let pieces = r.update(0, seq![s[0]] + r[0]);
        assert(s.take(1)[0] == s[0]);
        assert(s[0] != p[0]) by {
            if s[0] == p[0] {
                assert(s.take(1) =~= p);
            }
        }
        assert forall|i: int, j: int| 0 <= i < pieces.len() && 0 <= j < pieces[i].len() implies #[trigger] pieces[i][j] != d by {
            if i == 0 && j > 0 {
                assert(pieces[0][j] == r[0][j - 1]);
            }
        }
    }
}


/// Joining two or more pieces: all but the last joined, the pattern, then
/// the last.
proof fn lemma_join_with_last(pieces: Seq<Seq<char>>, p: Seq<char>)
    requires
        pieces.len() >= 2,
    ensures
        join_with(pieces, p) == join_with(pieces.drop_last(), p) + p + pieces.last(),
    decreases pieces.len(),
{
    if pieces.len() == 2 {
        assert(pieces.drop_first().len() == 1);
        assert(pieces.drop_last().len() == 1);
        assert(pieces.drop_first()[0] == pieces.last());
        assert(pieces.drop_last()[0] == pieces[0]);
        assert(join_with(pieces.drop_first(), p) == pieces.last());
        assert(join_with(pieces.drop_last(), p) == pieces[0]);
    } else {
        lemma_join_with_last(pieces.drop_first(), p);
        assert(pieces.drop_first().drop_last() =~= pieces.drop_last().drop_first());
        assert(pieces.drop_last()[0] == pieces[0]);
        assert(pieces.drop_first().last() == pieces.last());
        let a = pieces[0];
        let b = join_with(pieces.drop_first().drop_last(), p);
        assert(join_with(pieces.drop_last(), p) == a + p + join_with(pieces.drop_last().drop_first(), p));
        assert(a + p + (b + p + pieces.last()) =~= (a + p + b) + p + pieces.last());
    }
}

/// The lines of a text without carriage returns hold no line feed, and
/// joined with line feeds they give the text back, less a final line feed.
pub proof fn lemma_lines_rejoin(s: Seq<char>)
    requires
        forall|k: int| 0 <= k < s.len() ==> s[k] != '\r',
    ensures
        forall|i: int, j: int|
            0 <= i < lines(s).len() && 0 <= j < lines(s)[i].len() ==> #[trigger] lines(s)[i][j] != '\n',
        join_with(lines(s), seq!['\n']) == (if s.len() > 0 && s.last() == '\n' {
            s.drop_last()
        } else {
            s
        }),
{
    let p = seq!['\n'];
    let pieces = split_on(s, p);
    lemma_split_on_join(s, p);
    lemma_split_on_nonempty(s, p);
    lemma_split_on_char_pieces(s, p, '\n');
    lemma_split_on_char_pieces(s, p, '\r');
    if s.len() == 0 {
        return;
    }
    assert(pieces.drop_last().map_values(|l: Seq<char>| strip_cr(l)) =~= pieces.drop_last()) by {
        assert forall|i: int| 0 <= i < pieces.drop_last().len() implies strip_cr(
            #[trigger] pieces.drop_last()[i],
        ) == pieces.drop_last()[i] by {
            let l = pieces[i];
            if l.len() > 0 {
                assert(l.last() == pieces[i][l.len() - 1]);
            }
        }
    }
    if s.last() == '\n' {
        if pieces.len() == 1 {
            assert(s == pieces[0]);
            assert(pieces[0][s.len() - 1] != '\n');
        }
        lemma_join_with_last(pieces, p);
        let last = pieces.last();
        if last.len() > 0 {
            let front = join_with(pieces.drop_last(), p) + p;
            assert(s.last() == last[last.len() - 1]);
            assert(pieces[pieces.len() - 1][last.len() - 1] != '\n');
        }
        assert(join_with(pieces.drop_last(), p) + p + last =~= join_with(pieces.drop_last(), p).push('\n'));
    } else {
        assert(pieces.drop_last().push(pieces.last()) =~= pieces);
    }
}


/// Dropping the leading whitespace drops exactly a run of whitespace and
/// stops at the first other character.
proof fn lemma_trim_start_cut(s: Seq<char>)
    ensures
        ({
            let a: int = s.len() - trim_start(s).len();
            &&& 0 <= a <= s.len()
            &&& trim_start(s) == s.skip(a)
            &&& forall|k: int| 0 <= k < a ==> is_white_space(#[trigger] s[k])
            &&& a < s.len() ==> !is_white_space(s[a])
        }),
    decreases s.len(),
{
    if s.len() > 0 && is_white_space(s[0]) {
        lemma_trim_start_cut(s.drop_first());
        let a: int = s.len() - trim_start(s).len();
        assert(s.drop_first().skip(a - 1) =~= s.skip(a));
        assert forall|k: int| 0 <= k < a implies is_white_space(#[trigger] s[k]) by {
            if k > 0 {
                assert(s[k] == s.drop_first()[k - 1]);
            }
        }
    } else {
        assert(s.skip(0) =~= s);
    }
}

/// Dropping the trailing whitespace drops exactly a run of whitespace and
/// stops at the last other character.
proof fn lemma_trim_end_cut(s: Seq<char>)
    ensures
        ({
            let b: int = trim_end(s).len() as int;
            &&& 0 <= b <= s.len()
            &&& trim_end(s) == s.take(b)
            &&& forall|k: int| b <= k < s.len() ==> is_white_space(#[trigger] s[k])
            &&& b > 0 ==> !is_white_space(s[b - 1])
        }),
    decreases s.len(),
{
    if s.len() > 0 && is_white_space(s.last()) {
        lemma_trim_end_cut(s.drop_last());
        let b: int = trim_end(s).len() as int;
        assert(s.drop_last().take(b) =~= s.take(b));
        assert forall|k: int| b <= k < s.len() implies is_white_space(#[trigger] s[k]) by {
            if k < s.len() - 1 {
                assert(s[k] == s.drop_last()[k]);
            }
        }
    } else {
        assert(s.take(s.len() as int) =~= s);
    }
}

/// Trimming cuts whitespace, and only whitespace, from both ends: the
/// result is a stretch of the text that neither starts nor ends with
/// whitespace, and everything outside it is whitespace.
pub proof fn lemma_trim_cut(s: Seq<char>)
    ensures
        exists|a: int|
            {
                &&& 0 <= a && a + trim(s).len() <= s.len()
                &&& #[trigger] s.subrange(a, a + trim(s).len()) == trim(s)
                &&& forall|k: int| 0 <= k < a ==> is_white_space(#[trigger] s[k])
                &&& forall|k: int| a + trim(s).len() <= k < s.len() ==> is_white_space(#[trigger] s[k])
            },
        trim(s).len() > 0 ==> !is_white_space(trim(s)[0]) && !is_white_space(trim(s).last()),
{
    lemma_trim_start_cut(s);
    let a: int = s.len() - trim_start(s).len();
    let rest = trim_start(s);
    lemma_trim_end_cut(rest);
    let b: int = trim_end(rest).len() as int;
    assert(s.subrange(a, a + b) =~= rest.take(b));
    assert forall|k: int| a + b <= k < s.len() implies is_white_space(#[trigger] s[k]) by {
        assert(s[k] == rest[k - a]);
    }
    if b > 0 {
        assert(trim(s)[0] == s[a]);
    }
    assert(s.subrange(a, a + trim(s).len()) == trim(s));
}

/// The state of the token scan: completed tokens are non-empty and hold no
/// whitespace, the token being read holds none either, and together they
/// are the text's non-whitespace characters in order.
proof fn lemma_token_scan(s: Seq<char>)
    ensures
        ({
            let (done, cur) = token_scan(s);
            &&& forall|i: int| 0 <= i < done.len() ==> (#[trigger] done[i]).len() > 0
            &&& forall|i: int, j: int|
                0 <= i < done.len() && 0 <= j < done[i].len() ==> !is_white_space(#[trigger] done[i][j])
            &&& forall|j: int| 0 <= j < cur.len() ==> !is_white_space(#[trigger] cur[j])
            &&& done.flatten_alt() + cur == s.filter(|c: char| !is_white_space(c))
        }),
    decreases s.len(),
{
    reveal(Seq::filter);
    if s.len() == 0 {
        assert(Seq::<Seq<char>>::empty().flatten_alt() + Seq::<char>::empty() =~= s.filter(
            |c: char| !is_white_space(c),
        ));
    } else {
        lemma_token_scan(s.drop_last());
        let (done, cur) = token_scan(s.drop_last());
        let c = s.last();
        let f = s.drop_last().filter(|c: char| !is_white_space(c));
        if is_white_space(c) {
            if cur.len() > 0 {
                let d2 = done.push(cur);
                assert(d2.drop_last() =~= done);
                assert(d2.flatten_alt() == done.flatten_alt() + cur);
                assert(d2.flatten_alt() + Seq::<char>::empty() =~= f);
                assert forall|i: int, j: int| 0 <= i < d2.len() && 0 <= j < d2[i].len() implies !is_white_space(
                    #[trigger] d2[i][j],
                ) by {
                    if i < done.len() {
                        assert(d2[i] == done[i]);
                    }
                }
            } else {
                assert(done.flatten_alt() + Seq::<char>::empty() =~= f);
            }
        } else {
            assert(done.flatten_alt() + cur.push(c) =~= f.push(c));
        }
    }
}

/// The tokens of a text are non-empty, hold no whitespace, and together,
/// in order, are exactly the text's non-whitespace characters.
pub proof fn lemma_split_whitespace_tokens(s: Seq<char>)
    ensures
        forall|i: int| 0 <= i < split_whitespace(s).len() ==> (#[trigger] split_whitespace(s)[i]).len() > 0,
        forall|i: int, j: int|
            0 <= i < split_whitespace(s).len() && 0 <= j < split_whitespace(s)[i].len() ==> !is_white_space(
                #[trigger] split_whitespace(s)[i][j],
            ),
        split_whitespace(s).flatten_alt() == s.filter(|c: char| !is_white_space(c)),
{
    lemma_token_scan(s);
    let (done, cur) = token_scan(s);
    if cur.len() > 0 {
        let t = done.push(cur);
        assert(t.drop_last() =~= done);
        assert(t.flatten_alt() == done.flatten_alt() + cur);
        assert forall|i: int, j: int| 0 <= i < t.len() && 0 <= j < t[i].len() implies !is_white_space(
            #[trigger] t[i][j],
        ) by {
            if i < done.len() {
                assert(t[i] == done[i]);
            }
        }
    } else {
        assert(done.flatten_alt() + cur =~= done.flatten_alt());
    }
}

} // verus!
