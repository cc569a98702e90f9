use vstd::prelude::*;

verus! {

/// Whether `c` has the Unicode `White_Space` property (the whitespace of `char::is_whitespace`,
/// `str::trim` and `str::split_whitespace`).
pub open spec fn white_space(c: char) -> bool {
    ||| ('\u{9}' <= c && c <= '\u{d}')
    ||| c == ' '
    ||| c == '\u{85}'
    ||| c == '\u{a0}'
    ||| c == '\u{1680}'
    ||| ('\u{2000}' <= c && c <= '\u{200a}')
    ||| c == '\u{2028}'
    ||| c == '\u{2029}'
    ||| c == '\u{202f}'
    ||| c == '\u{205f}'
    ||| c == '\u{3000}'
}

/// `s` without its leading white space.
pub open spec fn trim_start(s: Seq<char>) -> Seq<char>
    decreases s.len(),
{
    if s.len() > 0 && white_space(s[0]) {
        trim_start(s.drop_first())
    } else {
        s
    }
}

/// `s` without its trailing white space.
pub open spec fn trim_end(s: Seq<char>) -> Seq<char>
    decreases s.len(),
{
    if s.len() > 0 && white_space(s.last()) {
        trim_end(s.drop_last())
    } else {
        s
    }
}

/// `s` without leading and trailing white space (`str::trim`).
pub open spec fn trim(s: Seq<char>) -> Seq<char> {
    trim_end(trim_start(s))
}

/// `i` is the index of the first occurrence of `c` in `s`.
pub open spec fn first_at(s: Seq<char>, c: char, i: int) -> bool {
    &&& 0 <= i < s.len()
    &&& s[i] == c
    &&& forall|j: int| 0 <= j < i ==> #[trigger] s[j] != c
}

/// `s` split around the first occurrence of `c`, which is dropped; `None` when `c` does not
/// occur (`str::split_once` with a character).
pub open spec fn split_once(s: Seq<char>, c: char) -> Option<(Seq<char>, Seq<char>)> {
    if exists|i: int| first_at(s, c, i) {
        let i = choose|i: int| first_at(s, c, i);
        Some((s.take(i), s.skip(i + 1)))
    } else {
        None
    }
}

/// The words of `s` found so far, scanning from the left, and the word being read
/// (`str::split_whitespace`).
pub open spec fn words_state(s: Seq<char>) -> (Seq<Seq<char>>, Seq<char>)
    decreases s.len(),
{
    if s.len() == 0 {
        (seq![], seq![])
    } else {
        let (done, cur) = words_state(s.drop_last());
        if white_space(s.last()) {
            if cur.len() > 0 {
                (done.push(cur), seq![])
            } else {
                (done, cur)
            }
        } else {
            (done, cur.push(s.last()))
        }
    }
}

/// The maximal runs of non-white-space characters of `s`, in order (`str::split_whitespace`).
pub open spec fn words(s: Seq<char>) -> Seq<Seq<char>> {
    let (done, cur) = words_state(s);
    if cur.len() > 0 {
        done.push(cur)
    } else {
        done
    }
}

/// The pieces of `s` found so far between occurrences of `sep`, and the piece being read.
pub open spec fn split_state(s: Seq<char>, sep: char) -> (Seq<Seq<char>>, Seq<char>)
    decreases s.len(),
{
    if s.len() == 0 {
        (seq![], seq![])
    } else {
        let (done, cur) = split_state(s.drop_last(), sep);
        if s.last() == sep {
            (done.push(cur), seq![])
        } else {
            (done, cur.push(s.last()))
        }
    }
}

/// The pieces of `s` between occurrences of `sep` (`str::split` with a character).
pub open spec fn split_on(s: Seq<char>, sep: char) -> Seq<Seq<char>> {
    let (done, cur) = split_state(s, sep);
    done.push(cur)
}

/// Whether `c` has the Unicode `White_Space` property.
pub fn is_white_space(c: char) -> (r: bool)
    ensures
        r == white_space(c),
{
    ('\u{9}' <= c && c <= '\u{d}') || c == ' ' || c == '\u{85}' || c == '\u{a0}' || c
        == '\u{1680}' || ('\u{2000}' <= c && c <= '\u{200a}') || c == '\u{2028}' || c
        == '\u{2029}' || c == '\u{202f}' || c == '\u{205f}' || c == '\u{3000}'
}

/// The characters of `s`, in order.
pub fn chars_of(s: &str) -> (out: Vec<char>)
    ensures
        out@ == s@,
{
    let mut out: Vec<char> = Vec::new();
    for c in it: s.chars()
        invariant
            out@ == it.seq().take(it.index() as int),
            it.seq() == s@,
    {
        out.push(c);
    }
    out
}

/// `String::push`: appends one character.
#[verifier::external_body]
pub(crate) fn push_char(s: &mut String, c: char)
    ensures
        final(s)@ == old(s)@.push(c),
{
    s.push(c);
}

/// Appends the characters `cs` to `out`.
pub fn push_chars(out: &mut String, cs: &Vec<char>)
    ensures
        final(out)@ == old(out)@ + cs@,
{
    let ghost start = out@;
    for i in 0..cs.len()
        invariant
            out@ == start + cs@.take(i as int),
    {
        push_char(out, cs[i]);
        assert(cs@.take(i + 1) =~= cs@.take(i as int).push(cs@[i as int]));
    }
    assert(cs@.take(cs.len() as int) =~= cs@);
}

/// A string holding the characters `cs`.
pub fn string_of(cs: &Vec<char>) -> (r: String)
    ensures
        r@ == cs@,
{
    let mut out = String::new();
    push_chars(&mut out, cs);
    assert(out@ =~= cs@);
    out
}

/// The characters `v[from..to]`.
pub fn sub_chars(v: &Vec<char>, from: usize, to: usize) -> (r: Vec<char>)
    requires
        from <= to <= v.len(),
    ensures
        r@ == v@.subrange(from as int, to as int),
{
    let mut out: Vec<char> = Vec::new();
    let mut i = from;
    while i < to
        invariant
            from <= i <= to <= v.len(),
            out@ == v@.subrange(from as int, i as int),
        decreases to - i,
    {
        out.push(v[i]);
        assert(v@.subrange(from as int, i + 1) =~= v@.subrange(from as int, i as int).push(
            v@[i as int],
        ));
        i += 1;
    }
    out
}

/// Whether `a` and `b` hold the same characters.
pub fn same_chars(a: &Vec<char>, b: &Vec<char>) -> (r: bool)
    ensures
        r == (a@ == b@),
{
    if a.len() != b.len() {
        return false;
    }
    for i in 0..a.len()
        invariant
            a.len() == b.len(),
            forall|j: int| 0 <= j < i ==> a@[j] == b@[j],
    {
        if a[i] != b[i] {
            return false;
        }
    }
    assert(a@ =~= b@);
    true
}

proof fn lemma_trim_start_skip(s: Seq<char>, i: int)
    requires
        0 <= i < s.len(),
        white_space(s[i]),
    ensures
        trim_start(s.skip(i)) == trim_start(s.skip(i + 1)),
{
    assert(s.skip(i).drop_first() =~= s.skip(i + 1));
}

proof fn lemma_trim_end_take(s: Seq<char>, j: int)
    requires
        0 < j <= s.len(),
        white_space(s[j - 1]),
    ensures
        trim_end(s.take(j)) == trim_end(s.take(j - 1)),
{
    assert(s.take(j).drop_last() =~= s.take(j - 1));
}

/// The bounds of `v` without its leading and trailing white space.
pub fn trim_bounds(v: &Vec<char>) -> (r: (usize, usize))
    ensures
        r.0 <= r.1 <= v.len(),
        v@.subrange(r.0 as int, r.1 as int) == trim(v@),
{
    let mut start: usize = 0;
    assert(v@.skip(0) =~= v@);
    while start < v.len() && is_white_space(v[start])
        invariant
            start <= v.len(),
            trim_start(v@) == trim_start(v@.skip(start as int)),
        decreases v.len() - start,
    {
        proof {
            lemma_trim_start_skip(v@, start as int);
        }
        start += 1;
    }
    let ghost rest = v@.skip(start as int);
    assert(trim_start(v@) == rest) by {
        if rest.len() > 0 {
            assert(rest[0] == v@[start as int]);
        }
    }
    let mut end: usize = v.len();
    assert(rest.take(rest.len() as int) =~= rest);
    while end > start && is_white_space(v[end - 1])
        invariant
            start <= end <= v.len(),
            rest == v@.skip(start as int),
            trim_end(rest) == trim_end(rest.take(end - start)),
        decreases end - start,
    {
        proof {
            assert(rest[end - start - 1] == v@[end - 1]);
            lemma_trim_end_take(rest, end - start);
        }
        end -= 1;
    }
    let ghost kept = rest.take(end - start);
    assert(trim_end(kept) == kept) by {
        if kept.len() > 0 {
            assert(kept.last() == v@[end - 1]);
        }
    }
    assert(v@.subrange(start as int, end as int) =~= kept);
    (start, end)
}

/// The characters of `v` without leading and trailing white space.
pub fn trimmed(v: &Vec<char>) -> (r: Vec<char>)
    ensures
        r@ == trim(v@),
{
    let (a, b) = trim_bounds(v);
    sub_chars(v, a, b)
}

/// `v` split around the first occurrence of `c` (`str::split_once`).
pub fn split_once_chars(v: &Vec<char>, c: char) -> (r: Option<(Vec<char>, Vec<char>)>)
    ensures
        match (r, split_once(v@, c)) {
            (Some((a, b)), Some((x, y))) => a@ == x && b@ == y,
            (None, None) => true,
            _ => false,
        },
{
    let mut i: usize = 0;
    while i < v.len()
        invariant
            i <= v.len(),
            forall|j: int| 0 <= j < i ==> v@[j] != c,
        decreases v.len() - i,
    {
        if v[i] == c {
            proof {
                assert(first_at(v@, c, i as int));
                let found = choose|k: int| first_at(v@, c, k);
                assert(found == i) by {
                    if found < i {
                        assert(v@[found] != c);
                    } else if found > i {
                        assert(v@[i as int] != c);
                    }
                }
            }
            let before = sub_chars(v, 0, i);
            let after = sub_chars(v, i + 1, v.len());
            assert(before@ =~= v@.take(i as int));
            assert(after@ =~= v@.skip(i + 1));
            return Some((before, after));
        }
        i += 1;
    }
    assert(!exists|k: int| first_at(v@, c, k)) by {
        if exists|k: int| first_at(v@, c, k) {
            let k = choose|k: int| first_at(v@, c, k);
            assert(v@[k] != c);
        }
    }
    None
}

/// Whether `s` holds no white space.
pub open spec fn no_white_space(s: Seq<char>) -> bool {
    forall|i: int| 0 <= i < s.len() ==> !white_space(#[trigger] s[i])
}

/// Reading characters without white space extends the word being read.
pub proof fn lemma_words_state_extend(s: Seq<char>, w: Seq<char>)
    requires
        no_white_space(w),
    ensures
        words_state(s + w) == (words_state(s).0, words_state(s).1 + w),
    decreases w.len(),
{
    if w.len() == 0 {
        assert(s + w =~= s);
        assert(words_state(s).1 + w =~= words_state(s).1);
    } else {
        let w0 = w.drop_last();
        assert(no_white_space(w0)) by {
            assert forall|i: int| 0 <= i < w0.len() implies !white_space(#[trigger] w0[i]) by {
                assert(w0[i] == w[i]);
            }
        }
        lemma_words_state_extend(s, w0);
        assert((s + w).drop_last() =~= s + w0);
        assert((s + w).last() == w[w.len() - 1]);
        assert((words_state(s).1 + w0).push(w.last()) =~= words_state(s).1 + w);
    }
}

/// Reading a white space ends the word being read.
pub proof fn lemma_words_state_space(s: Seq<char>, c: char)
    requires
        white_space(c),
    ensures
        words_state(s.push(c)) == (
            if words_state(s).1.len() > 0 {
                words_state(s).0.push(words_state(s).1)
            } else {
                words_state(s).0
            },
            Seq::<char>::empty(),
        ),
{
    assert(s.push(c).drop_last() =~= s);
    if words_state(s).1.len() == 0 {
        assert(words_state(s).1 =~= Seq::<char>::empty());
    }
}

/// A key without `=`, then `=`, then a value: `split_once` splits at that `=`.
pub proof fn lemma_split_once_after_key(k: Seq<char>, v: Seq<char>)
    requires
        !k.contains('='),
    ensures
        split_once(k + seq!['='] + v, '=') == Some((k, v)),
{
    let s = k + seq!['='] + v;
    let i = k.len() as int;
    assert(s[i] == '=');
    assert forall|j: int| 0 <= j < i implies #[trigger] s[j] != '=' by {
        assert(s[j] == k[j]);
    }
    assert(first_at(s, '=', i));
    let found = choose|m: int| first_at(s, '=', m);
    assert(found == i) by {
        if found < i {
            assert(s[found] != '=');
        } else if found > i {
            assert(s[i] != '=');
        }
    }
    assert(s.take(i) =~= k);
    assert(s.skip(i + 1) =~= v);
}

/// The two parts that `split_once` gives, with the separator between them, are the whole.
pub proof fn lemma_split_once_parts(s: Seq<char>, c: char)
    ensures
        split_once(s, c) matches Some((a, b)) ==> s == a + seq![c] + b,
{
    if exists|i: int| first_at(s, c, i) {
        let i = choose|i: int| first_at(s, c, i);
        assert(s =~= s.take(i) + seq![c] + s.skip(i + 1));
    }
}

/// Splitting at a separator placed between `a` and `b` splits `a` and `b` apart.
pub proof fn lemma_split_state_after_sep(a: Seq<char>, sep: char, b: Seq<char>)
    ensures
        split_state(a + seq![sep] + b, sep) == (
            split_on(a, sep) + split_state(b, sep).0,
            split_state(b, sep).1,
        ),
    decreases b.len(),
{
    let e = Seq::<Seq<char>>::empty();
    if b.len() == 0 {
        assert(a + seq![sep] + b =~= a.push(sep));
        assert(a.push(sep).drop_last() =~= a);
        assert(split_on(a, sep) + e =~= split_on(a, sep));
    } else {
        let b0 = b.drop_last();
        lemma_split_state_after_sep(a, sep, b0);
        assert((a + seq![sep] + b).drop_last() =~= a + seq![sep] + b0);
        assert((a + seq![sep] + b).last() == b.last());
        let (d0, c0) = split_state(b0, sep);
        if b.last() == sep {
            assert((split_on(a, sep) + d0).push(c0) =~= split_on(a, sep) + d0.push(c0));
        }
    }
}

/// The pieces of `a`, a separator, then `b` are the pieces of `a` followed by those of `b`.
pub proof fn lemma_split_on_concat(a: Seq<char>, sep: char, b: Seq<char>)
    ensures
        split_on(a + seq![sep] + b, sep) == split_on(a, sep) + split_on(b, sep),
{
    lemma_split_state_after_sep(a, sep, b);
    let (d, c) = split_state(b, sep);
    assert((split_on(a, sep) + d).push(c) =~= split_on(a, sep) + d.push(c));
}

/// Leading white space of `x` goes, and what follows a non-white-space character stays.
pub proof fn lemma_trim_start_append(x: Seq<char>, y: Seq<char>)
    requires
        y.len() > 0,
        !white_space(y[0]),
    ensures
        trim_start(x + y) == trim_start(x) + y,
    decreases x.len(),
{
    if x.len() == 0 {
        assert(x + y =~= y);
        assert(trim_start(x) + y =~= y);
    } else {
        assert((x + y)[0] == x[0]);
        if white_space(x[0]) {
            assert((x + y).drop_first() =~= x.drop_first() + y);
            lemma_trim_start_append(x.drop_first(), y);
        }
    }
}

/// Trailing white space of `y` goes, and what precedes a non-white-space character stays.
pub proof fn lemma_trim_end_prepend(x: Seq<char>, y: Seq<char>)
    requires
        x.len() > 0,
        !white_space(x.last()),
    ensures
        trim_end(x + y) == x + trim_end(y),
    decreases y.len(),
{
    if y.len() == 0 {
        assert(x + y =~= x);
        assert(x + trim_end(y) =~= x);
    } else {
        assert((x + y).last() == y.last());
        if white_space(y.last()) {
            assert((x + y).drop_last() =~= x + y.drop_last());
            lemma_trim_end_prepend(x, y.drop_last());
        }
    }
}

/// Trimming the start twice trims it once.
pub proof fn lemma_trim_start_idempotent(s: Seq<char>)
    ensures
        trim_start(trim_start(s)) == trim_start(s),
    decreases s.len(),
{
    if s.len() > 0 && white_space(s[0]) {
        lemma_trim_start_idempotent(s.drop_first());
    }
}

/// Trimming the end twice trims it once.
pub proof fn lemma_trim_end_idempotent(s: Seq<char>)
    ensures
        trim_end(trim_end(s)) == trim_end(s),
    decreases s.len(),
{
    if s.len() > 0 && white_space(s.last()) {
        lemma_trim_end_idempotent(s.drop_last());
    }
}

proof fn lemma_trim_end_cons(c: char, s: Seq<char>)
    ensures
        trim_end(seq![c] + s) == if trim_end(s).len() == 0 && white_space(c) {
            Seq::<char>::empty()
        } else {
            seq![c] + trim_end(s)
        },
    decreases s.len(),
{
    if s.len() == 0 {
        assert(seq![c] + s =~= seq![c]);
        assert(seq![c].drop_last() =~= Seq::<char>::empty());
        assert(seq![c].last() == c);
        assert(trim_end(Seq::<char>::empty()) == Seq::<char>::empty());
        assert(seq![c] + trim_end(s) =~= seq![c]);
    } else {
        assert((seq![c] + s).last() == s.last());
        if white_space(s.last()) {
            assert((seq![c] + s).drop_last() =~= seq![c] + s.drop_last());
            lemma_trim_end_cons(c, s.drop_last());
        } else {
            assert(trim_end(s) == s);
        }
    }
}

/// Trimming the start and trimming the end can be done in either order.
pub proof fn lemma_trim_commutes(s: Seq<char>)
    ensures
        trim_start(trim_end(s)) == trim_end(trim_start(s)),
    decreases s.len(),
{
    if s.len() > 0 {
        let c = s[0];
        let t = s.drop_first();
        assert(s =~= seq![c] + t);
        lemma_trim_end_cons(c, t);
        lemma_trim_commutes(t);
        if white_space(c) {
            if trim_end(t).len() > 0 {
                assert((seq![c] + trim_end(t)).drop_first() =~= trim_end(t));
            }
        } else {
            assert((seq![c] + trim_end(t))[0] == c);
        }
    }
}

/// Trimming a text whose end is already trimmed is trimming the text.
pub proof fn lemma_trim_of_trim_end(s: Seq<char>)
    ensures
        trim(trim_end(s)) == trim(s),
{
    lemma_trim_commutes(s);
    lemma_trim_end_idempotent(trim_start(s));
}

/// Trimming a text whose start is already trimmed is trimming the text.
pub proof fn lemma_trim_of_trim_start(s: Seq<char>)
    ensures
        trim(trim_start(s)) == trim(s),
{
    lemma_trim_start_idempotent(s);
}

/// Trimming the start keeps only characters of the text.
pub proof fn lemma_trim_start_keeps_chars(s: Seq<char>, c: char)
    ensures
        trim_start(s).contains(c) ==> s.contains(c),
    decreases s.len(),
{
    if s.len() > 0 && white_space(s[0]) {
        lemma_trim_start_keeps_chars(s.drop_first(), c);
        if trim_start(s).contains(c) {
            let i = choose|i: int| 0 <= i < s.drop_first().len() && s.drop_first()[i] == c;
            assert(s[i + 1] == c);
        }
    }
}

/// A text without the separator is one piece.
pub proof fn lemma_split_state_without_sep(s: Seq<char>, sep: char)
    requires
        !s.contains(sep),
    ensures
        split_state(s, sep) == (Seq::<Seq<char>>::empty(), s),
    decreases s.len(),
{
    if s.len() > 0 {
        assert(!s.drop_last().contains(sep)) by {
            if s.drop_last().contains(sep) {
                let i = choose|i: int| 0 <= i < s.drop_last().len() && s.drop_last()[i] == sep;
                assert(s[i] == sep);
            }
        }
        lemma_split_state_without_sep(s.drop_last(), sep);
        assert(s.last() != sep) by {
            assert(s[s.len() - 1] == s.last());
        }
        assert(s.drop_last().push(s.last()) =~= s);
    }
}

} // verus!
