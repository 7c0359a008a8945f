//! Character-level text handling shared by the protocol parsers: splitting a
//! line into fields, splitting a reply into lines, trimming, and comparing
//! against fixed words. Every function here is stated over `Seq<char>`.
use vstd::prelude::*;
use vstd::string::StringExecFns;

verus! {

/// The pieces between occurrences of `sep`, as `str::split` with a `char`
/// pattern yields them: the empty text gives one empty piece, and two
/// adjacent separators give an empty piece between them.
pub open spec fn split_on(s: Seq<char>, sep: char) -> Seq<Seq<char>>
    decreases s.len(),
{
    if s.len() == 0 {
        seq![Seq::<char>::empty()]
    } else {
        let rest = split_on(s.drop_last(), sep);
        if s.last() == sep {
            rest.push(Seq::<char>::empty())
        } else {
            rest.update(rest.len() - 1, rest.last().push(s.last()))
        }
    }
}

/// The predicate that keeps a piece that is not empty.
pub open spec fn non_empty() -> spec_fn(Seq<char>) -> bool {
    |t: Seq<char>| t.len() > 0
}

/// The pieces of the characters between occurrences of `sep`
/// (`str::split` with a `char` pattern).
pub fn split_pieces(cs: &[char], sep: char) -> (out: Vec<Vec<char>>)
    ensures
        out@.map_values(|t: Vec<char>| t@) == split_on(cs@, sep),
{
    let mut out: Vec<Vec<char>> = Vec::new();
    let mut cur: Vec<char> = Vec::new();
    let mut i: usize = 0;
    assert(cs@.take(0) =~= Seq::<char>::empty());
    assert(split_on(cs@.take(0), sep).drop_last() =~= Seq::<Seq<char>>::empty());
    while i < cs.len()
        invariant
            i <= cs.len(),
            split_on(cs@.take(i as int), sep).len() >= 1,
            out@.map_values(|t: Vec<char>| t@) == split_on(cs@.take(i as int), sep).drop_last(),
            cur@ == split_on(cs@.take(i as int), sep).last(),
        decreases cs.len() - i,
    {
        let ghost p = split_on(cs@.take(i as int), sep);
        proof {
            lemma_split_on_step(cs@, i as int, sep);
        }
        let c = cs[i];
        if c == sep {
            let ghost old_out = out@;
            out.push(cur);
            assert(p.push(Seq::<char>::empty()).drop_last() =~= p);
            assert(p =~= p.drop_last().push(p.last()));
            assert(out@.map_values(|t: Vec<char>| t@) =~= old_out.map_values(|t: Vec<char>| t@).push(
                p.last(),
            ));
            cur = Vec::new();
        } else {
            cur.push(c);
            proof {
                let q = p.update(p.len() - 1, p.last().push(c));
                assert(q.drop_last() =~= p.drop_last());
            }
        }
        i = i + 1;
    }
    assert(cs@.take(i as int) =~= cs@);
    let ghost p = split_on(cs@, sep);
    let ghost old_out = out@;
    out.push(cur);
    assert(p =~= p.drop_last().push(p.last()));
    assert(out@.map_values(|t: Vec<char>| t@) =~= old_out.map_values(|t: Vec<char>| t@).push(
        p.last(),
    ));
    out
}

/// Appends the text to the string.
pub fn push_text(s: &mut String, t: &str)
    ensures
        final(s)@ == old(s)@ + t@,
{
    s.append(t);
}

/// The fields of a line: its pieces between spaces, empty pieces dropped
/// (`split(' ').filter(|s| !s.is_empty())`).
pub open spec fn fields(s: Seq<char>) -> Seq<Seq<char>> {
    split_on(s, ' ').filter(non_empty())
}

/// A piece with one trailing carriage return removed, if it has one.
pub open spec fn strip_cr(l: Seq<char>) -> Seq<char> {
    if l.len() > 0 && l.last() == '\r' {
        l.drop_last()
    } else {
        l
    }
}

/// The lines of a text, as `str::lines` yields them: the text is cut after
/// each `'\n'`, a line ended by `"\r\n"` loses its `'\r'`, and a final empty
/// piece (after a last line ending, or of the empty text) is no line.
pub open spec fn lines(s: Seq<char>) -> Seq<Seq<char>> {
    let p = split_on(s, '\n');
    let ended = p.drop_last().map_values(|l: Seq<char>| strip_cr(l));
    if p.last().len() == 0 {
        ended
    } else {
        ended.push(p.last())
    }
}

/// Unicode's `White_Space` property, which `char::is_whitespace` and
/// `str::trim` go by.
pub open spec fn is_white_space(c: char) -> bool {
    ||| '\u{0009}' <= c <= '\u{000D}'
    ||| c == ' '
    ||| c == '\u{0085}'
    ||| c == '\u{00A0}'
    ||| c == '\u{1680}'
    ||| '\u{2000}' <= c <= '\u{200A}'
    ||| c == '\u{2028}'
    ||| c == '\u{2029}'
    ||| c == '\u{202F}'
    ||| c == '\u{205F}'
    ||| c == '\u{3000}'
}

/// The text without its leading white space.
pub open spec fn trim_start(s: Seq<char>) -> Seq<char>
    decreases s.len(),
{
    if s.len() > 0 && is_white_space(s[0]) {
        trim_start(s.drop_first())
    } else {
        s
    }
}

/// The text without its trailing white space.
pub open spec fn trim_end(s: Seq<char>) -> Seq<char>
    decreases s.len(),
{
    if s.len() > 0 && is_white_space(s.last()) {
        trim_end(s.drop_last())
    } else {
        s
    }
}

/// The text without leading and trailing white space (`str::trim`).
pub open spec fn trim(s: Seq<char>) -> Seq<char> {
    trim_end(trim_start(s))
}

/// The position of the last `"\r\n"` in the text, if there is one.
pub open spec fn last_crlf(s: Seq<char>) -> Option<int>
    decreases s.len(),
{
    if s.len() < 2 {
        None
    } else if s[s.len() - 2] == '\r' && s[s.len() - 1] == '\n' {
        Some(s.len() - 2)
    } else {
        last_crlf(s.drop_last())
    }
}

/// The text split around its last `"\r\n"` (`str::rsplit_once("\r\n")`).
pub open spec fn rsplit_once_crlf(s: Seq<char>) -> Option<(Seq<char>, Seq<char>)> {
    match last_crlf(s) {
        Some(k) => Some((s.take(k), s.skip(k + 2))),
        None => None,
    }
}

/// Whether the text ends with the given character.
pub open spec fn ends_with(s: Seq<char>, c: char) -> bool {
    s.len() > 0 && s.last() == c
}

/// `String::push`: afterwards the string holds its old characters and then
/// the pushed one.
#[verifier::external_body]
fn string_push(s: &mut String, c: char)
    ensures
        final(s)@ == old(s)@.push(c),
{
    s.push(c);
}

/// A `String` holding a copy of the text.
pub fn owned(s: &str) -> (r: String)
    ensures
        r@ == s@,
{
    s.to_owned()
}

/// The characters of a text.
pub fn chars_of(s: &str) -> (v: Vec<char>)
    ensures
        v@ == s@,
{
    let mut v: Vec<char> = Vec::new();
    for c in it: s.chars()
        invariant
            v@ == it.seq().take(it.index() as int),
    {
        v.push(c);
    }
    v
}

/// A `String` holding the given characters.
pub fn string_of(cs: &[char]) -> (s: String)
    ensures
        s@ == cs@,
{
    let mut s = String::new();
    let mut i: usize = 0;
    while i < cs.len()
        invariant
            i <= cs.len(),
            s@ == cs@.take(i as int),
        decreases cs.len() - i,
    {
        string_push(&mut s, cs[i]);
        i = i + 1;
        assert(s@ =~= cs@.take(i as int));
    }
    assert(cs@.take(cs.len() as int) =~= cs@);
    s
}

/// Whether the characters spell the given word.
pub fn is_word(cs: &[char], w: &str) -> (b: bool)
    ensures
        b == (cs@ == w@),
{
    let wc = chars_of(w);
    if cs.len() != wc.len() {
        return false;
    }
    let mut i: usize = 0;
    while i < cs.len()
        invariant
            i <= cs.len(),
            cs.len() == wc.len(),
            wc@ == w@,
            forall|j: int| 0 <= j < i ==> cs@[j] == wc@[j],
        decreases cs.len() - i,
    {
        if cs[i] != wc[i] {
            return false;
        }
        i = i + 1;
    }
    assert(cs@ =~= wc@);
    true
}

/// `char::is_whitespace`.
pub fn white_space(c: char) -> (b: bool)
    ensures
        b == is_white_space(c),
{
    ('\u{0009}' <= c && c <= '\u{000D}') || c == ' ' || c == '\u{0085}' || c == '\u{00A0}'
        || c == '\u{1680}' || ('\u{2000}' <= c && c <= '\u{200A}') || c == '\u{2028}'
        || c == '\u{2029}' || c == '\u{202F}' || c == '\u{205F}' || c == '\u{3000}'
}

proof fn lemma_trim_start_skip(s: Seq<char>, i: int)
    requires
        0 <= i < s.len(),
        is_white_space(s[i]),
    ensures
        trim_start(s.skip(i)) == trim_start(s.skip(i + 1)),
{
    assert(s.skip(i).drop_first() =~= s.skip(i + 1));
}

proof fn lemma_trim_end_take(s: Seq<char>, j: int)
    requires
        0 < j <= s.len(),
        is_white_space(s[j - 1]),
    ensures
        trim_end(s.take(j)) == trim_end(s.take(j - 1)),
{
    assert(s.take(j).drop_last() =~= s.take(j - 1));
}

/// The characters without leading and trailing white space.
pub fn trimmed(cs: &[char]) -> (t: Vec<char>)
    ensures
        t@ == trim(cs@),
{
    let mut i: usize = 0;
    assert(cs@.skip(0) =~= cs@);
    while i < cs.len() && white_space(cs[i])
        invariant
            i <= cs.len(),
            trim_start(cs@) == trim_start(cs@.skip(i as int)),
        decreases cs.len() - i,
    {
        proof {
            lemma_trim_start_skip(cs@, i as int);
        }
        i = i + 1;
    }
    let ghost rest = cs@.skip(i as int);
    assert(trim_start(cs@) == rest);
    let mut j: usize = cs.len();
    assert(rest.take((j - i) as int) =~= rest);
    while j > i && white_space(cs[j - 1])
        invariant
            i <= j <= cs.len(),
            rest == cs@.skip(i as int),
            trim_end(rest) == trim_end(rest.take((j - i) as int)),
        decreases j,
    {
        proof {
            assert(rest[(j - i) - 1] == cs@[j - 1]);
            lemma_trim_end_take(rest, (j - i) as int);
        }
        j = j - 1;
    }
    assert(trim_end(rest) == rest.take((j - i) as int));
    let mut t: Vec<char> = Vec::new();
    let mut k: usize = i;
    while k < j
        invariant
            i <= k <= j <= cs.len(),
            rest == cs@.skip(i as int),
            t@ == rest.take((k - i) as int),
        decreases j - k,
    {
        t.push(cs[k]);
        k = k + 1;
        assert(t@ =~= rest.take((k - i) as int));
    }
    t
}

pub proof fn lemma_split_on_nonempty(s: Seq<char>, sep: char)
    ensures
        split_on(s, sep).len() >= 1,
    decreases s.len(),
{
    if s.len() > 0 {
        lemma_split_on_nonempty(s.drop_last(), sep);
    }
}

/// Cutting at one separator: the pieces of `x`, then those of `y`.
pub proof fn lemma_split_on_at_sep(x: Seq<char>, sep: char, y: Seq<char>)
    ensures
        split_on(x + seq![sep] + y, sep) == split_on(x, sep) + split_on(y, sep),
    decreases y.len(),
{
    let xs = x + seq![sep];
    if y.len() == 0 {
        assert(xs + y =~= xs);
        assert(xs.drop_last() =~= x);
        assert(split_on(y, sep) =~= seq![Seq::<char>::empty()]);
        assert(split_on(x, sep).push(Seq::<char>::empty()) =~= split_on(x, sep) + seq![
            Seq::<char>::empty(),
        ]);
    } else {
        let y0 = y.drop_last();
        let c = y.last();
        lemma_split_on_at_sep(x, sep, y0);
        lemma_split_on_nonempty(y0, sep);
        assert((xs + y).drop_last() =~= xs + y0);
        assert((xs + y).last() == c);
        let px = split_on(x, sep);
        let py = split_on(y0, sep);
        if c == sep {
            assert((px + py).push(Seq::<char>::empty()) =~= px + py.push(Seq::<char>::empty()));
        } else {
            let whole = px + py;
            assert(whole.last() == py.last());
            assert(whole.update(whole.len() - 1, whole.last().push(c)) =~= px + py.update(
                py.len() - 1,
                py.last().push(c),
            ));
        }
    }
}

/// The fields of a text with one space inserted at `i`, where the text
/// starts or ends, or next to a space it already has, are its fields.
pub proof fn lemma_fields_insert_space(line: Seq<char>, i: int)
    requires
        0 <= i <= line.len(),
        i == 0 || i == line.len() || line[i - 1] == ' ' || line[i] == ' ',
    ensures
        fields(line.insert(i, ' ')) == fields(line),
{
    let a = line.take(i);
    let b = line.skip(i);
    let e = Seq::<char>::empty();
    let pe = seq![e];
    assert(line.insert(i, ' ') =~= a + seq![' '] + b);
    assert(line =~= a + b);
    lemma_split_on_at_sep(a, ' ', b);
    let pa = split_on(a, ' ');
    let pb = split_on(b, ' ');
    Seq::filter_distributes_over_add(pa, pb, non_empty());
    assert(split_on(e, ' ') == pe);
    assert(pe.filter(non_empty()) =~= Seq::<Seq<char>>::empty()) by {
        reveal(Seq::filter);
        let none = Seq::<Seq<char>>::empty();
        assert(pe =~= none.push(e));
        none.lemma_filter_push(e, non_empty());
        assert(none.filter(non_empty()) =~= none);
        assert(!non_empty()(e));
    }
    if i == 0 {
        assert(a =~= e);
        assert(b =~= line);
        assert(pa.filter(non_empty()) + pb.filter(non_empty()) =~= pb.filter(non_empty()));
    } else if i == line.len() {
        assert(b =~= e);
        assert(a =~= line);
        assert(pa.filter(non_empty()) + pb.filter(non_empty()) =~= pa.filter(non_empty()));
    } else if line[i - 1] == ' ' {
        let a0 = a.drop_last();
        assert(a =~= a0 + seq![' '] + e);
        assert(a + b =~= a0 + seq![' '] + b);
        lemma_split_on_at_sep(a0, ' ', e);
        lemma_split_on_at_sep(a0, ' ', b);
        let p0 = split_on(a0, ' ');
        Seq::filter_distributes_over_add(p0, pe, non_empty());
        Seq::filter_distributes_over_add(p0, pb, non_empty());
        assert(p0.filter(non_empty()) + Seq::<Seq<char>>::empty() =~= p0.filter(non_empty()));
    } else {
        let b0 = b.drop_first();
        assert(b =~= e + seq![' '] + b0);
        assert(a + b =~= a + seq![' '] + b0);
        lemma_split_on_at_sep(e, ' ', b0);
        lemma_split_on_at_sep(a, ' ', b0);
        let p0 = split_on(b0, ' ');
        Seq::filter_distributes_over_add(pe, p0, non_empty());
        Seq::filter_distributes_over_add(pa, p0, non_empty());
        assert(Seq::<Seq<char>>::empty() + p0.filter(non_empty()) =~= p0.filter(non_empty()));
    }
}

/// `k` spaces.
pub open spec fn spaces(k: nat) -> Seq<char> {
    Seq::new(k, |j: int| ' ')
}

/// The fields of a text with spaces inserted at `i`, where the text starts
/// or ends, or next to a space it already has, are its fields.
pub proof fn lemma_fields_insert_spaces(line: Seq<char>, i: int, k: nat)
    requires
        0 <= i <= line.len(),
        i == 0 || i == line.len() || line[i - 1] == ' ' || line[i] == ' ',
    ensures
        fields(line.take(i) + spaces(k) + line.skip(i)) == fields(line),
    decreases k,
{
    if k == 0 {
        assert(line.take(i) + spaces(k) + line.skip(i) =~= line);
    } else {
        let k0 = (k - 1) as nat;
        lemma_fields_insert_spaces(line, i, k0);
        let t = line.take(i) + spaces(k0) + line.skip(i);
        // The next space goes just before the spaces inserted so far, or at
        // the end of the text when there are none.
        if k0 > 0 {
            assert(t[i] == ' ');
        } else {
            assert(t =~= line);
        }
        lemma_fields_insert_space(t, i);
        assert(t.insert(i, ' ') =~= line.take(i) + spaces(k) + line.skip(i));
    }
}

/// One step of `split_on`: the pieces of a text one character longer.
proof fn lemma_split_on_step(s: Seq<char>, i: int, sep: char)
    requires
        0 <= i < s.len(),
    ensures
        split_on(s.take(i), sep).len() >= 1,
        s[i] == sep ==> split_on(s.take(i + 1), sep) == split_on(s.take(i), sep).push(
            Seq::<char>::empty(),
        ),
        s[i] != sep ==> split_on(s.take(i + 1), sep) == split_on(s.take(i), sep).update(
            split_on(s.take(i), sep).len() - 1,
            split_on(s.take(i), sep).last().push(s[i]),
        ),
{
    lemma_split_on_nonempty(s.take(i), sep);
    assert(s.take(i + 1).drop_last() =~= s.take(i));
}

/// The fields of a line (`split(' ')` with empty pieces dropped).
pub fn split_fields(line: &[char]) -> (out: Vec<Vec<char>>)
    ensures
        out@.map_values(|t: Vec<char>| t@) == fields(line@),
{
    let mut out: Vec<Vec<char>> = Vec::new();
    let mut cur: Vec<char> = Vec::new();
    let mut i: usize = 0;
    assert(line@.take(0) =~= Seq::<char>::empty());
    assert(split_on(line@.take(0), ' ').drop_last() =~= Seq::<Seq<char>>::empty());
    proof {
        reveal(Seq::filter);
    }
    while i < line.len()
        invariant
            i <= line.len(),
            split_on(line@.take(i as int), ' ').len() >= 1,
            out@.map_values(|t: Vec<char>| t@) == split_on(line@.take(i as int), ' ').drop_last().filter(
                non_empty(),
            ),
            cur@ == split_on(line@.take(i as int), ' ').last(),
        decreases line.len() - i,
    {
        let ghost p = split_on(line@.take(i as int), ' ');
        proof {
            lemma_split_on_step(line@, i as int, ' ');
        }
        let c = line[i];
        if c == ' ' {
            proof {
                assert(p.push(Seq::<char>::empty()).drop_last() =~= p);
                assert(p =~= p.drop_last().push(p.last()));
                p.drop_last().lemma_filter_push(p.last(), non_empty());
            }
            if cur.len() > 0 {
                let ghost old_out = out@;
                out.push(cur);
                assert(out@.map_values(|t: Vec<char>| t@) =~= old_out.map_values(
                    |t: Vec<char>| t@,
                ).push(p.last()));
            }
            cur = Vec::new();
        } else {
            cur.push(c);
            proof {
                let q = p.update(p.len() - 1, p.last().push(c));
                assert(q.drop_last() =~= p.drop_last());
            }
        }
        i = i + 1;
    }
    proof {
        let p = split_on(line@.take(i as int), ' ');
        assert(line@.take(i as int) =~= line@);
        assert(p =~= p.drop_last().push(p.last()));
        p.drop_last().lemma_filter_push(p.last(), non_empty());
    }
    if cur.len() > 0 {
        let ghost old_out = out@;
        out.push(cur);
        assert(out@.map_values(|t: Vec<char>| t@) =~= old_out.map_values(|t: Vec<char>| t@).push(
            split_on(line@, ' ').last(),
        ));
    }
    out
}

/// The lines of a text (`str::lines`).
pub fn split_lines(text: &[char]) -> (out: Vec<Vec<char>>)
    ensures
        out@.map_values(|t: Vec<char>| t@) == lines(text@),
{
    let mut out: Vec<Vec<char>> = Vec::new();
    let mut cur: Vec<char> = Vec::new();
    let mut i: usize = 0;
    assert(text@.take(0) =~= Seq::<char>::empty());
    assert(split_on(text@.take(0), '\n').drop_last() =~= Seq::<Seq<char>>::empty());
    while i < text.len()
        invariant
            i <= text.len(),
            split_on(text@.take(i as int), '\n').len() >= 1,
            out@.map_values(|t: Vec<char>| t@) == split_on(text@.take(i as int), '\n').drop_last().map_values(
                |l: Seq<char>| strip_cr(l),
            ),
            cur@ == split_on(text@.take(i as int), '\n').last(),
        decreases text.len() - i,
    {
        let ghost p = split_on(text@.take(i as int), '\n');
        proof {
            lemma_split_on_step(text@, i as int, '\n');
        }
        let c = text[i];
        if c == '\n' {
            let ghost old_out = out@;
            if cur.len() > 0 && cur[cur.len() - 1] == '\r' {
                cur.pop();
            }
            assert(cur@ == strip_cr(p.last()));
            out.push(cur);
            assert(p.push(Seq::<char>::empty()).drop_last() =~= p);
            assert(p =~= p.drop_last().push(p.last()));
            assert(out@.map_values(|t: Vec<char>| t@) =~= old_out.map_values(|t: Vec<char>| t@).push(
                strip_cr(p.last()),
            ));
            assert(p.map_values(|l: Seq<char>| strip_cr(l)) =~= p.drop_last().map_values(
                |l: Seq<char>| strip_cr(l),
            ).push(strip_cr(p.last())));
            cur = Vec::new();
        } else {
            cur.push(c);
            proof {
                let q = p.update(p.len() - 1, p.last().push(c));
                assert(q.drop_last() =~= p.drop_last());
            }
        }
        i = i + 1;
    }
    assert(text@.take(i as int) =~= text@);
    if cur.len() > 0 {
        let ghost old_out = out@;
        out.push(cur);
        assert(out@.map_values(|t: Vec<char>| t@) =~= old_out.map_values(|t: Vec<char>| t@).push(
            split_on(text@, '\n').last(),
        ));
    }
    out
}

/// The text around its last `"\r\n"`, if it has one.
pub fn split_last_crlf(s: &[char]) -> (r: Option<(Vec<char>, Vec<char>)>)
    ensures
        match r {
            Some((a, b)) => rsplit_once_crlf(s@) == Some((a@, b@)),
            None => rsplit_once_crlf(s@) is None,
        },
{
    let mut n: usize = s.len();
    assert(s@.take(n as int) =~= s@);
    while n >= 2 && !(s[n - 2] == '\r' && s[n - 1] == '\n')
        invariant
            n <= s.len(),
            last_crlf(s@) == last_crlf(s@.take(n as int)),
        decreases n,
    {
        assert(s@.take(n as int).drop_last() =~= s@.take(n - 1));
        n = n - 1;
    }
    if n < 2 {
        return None;
    }
    let k = n - 2;
    let mut a: Vec<char> = Vec::new();
    let mut i: usize = 0;
    while i < k
        invariant
            k + 2 <= s.len(),
            i <= k,
            a@ == s@.take(i as int),
        decreases k - i,
    {
        a.push(s[i]);
        i = i + 1;
        assert(a@ =~= s@.take(i as int));
    }
    let mut b: Vec<char> = Vec::new();
    let mut j: usize = k + 2;
    while j < s.len()
        invariant
            k + 2 <= j <= s.len(),
            b@ == s@.subrange(k + 2, j as int),
        decreases s.len() - j,
    {
        b.push(s[j]);
        j = j + 1;
        assert(b@ =~= s@.subrange(k + 2, j as int));
    }
    assert(b@ =~= s@.skip(k + 2));
    Some((a, b))
}

} // verus!
