use crate::text::{
    lemma_split_on_concat, lemma_split_once_after_key, lemma_split_state_without_sep,
    lemma_trim_end_prepend, lemma_trim_of_trim_end, lemma_trim_of_trim_start,
    lemma_trim_start_append, lemma_trim_start_keeps_chars, trim_end, trim_start, chars_of, split_once, split_once_chars, split_on, split_state, string_of, trim, trimmed,
};
use vstd::prelude::*;

verus! {

/// The setting on one line of the configuration file: blank lines and lines that start with
/// `#` hold none, nor do lines without `=`; otherwise the text before the first `=` is the key
/// and the rest the value, both trimmed.
pub open spec fn cfg_entry(line: Seq<char>) -> Option<(Seq<char>, Seq<char>)> {
    let l = trim(line);
    if l.len() == 0 || l[0] == '#' {
        None
    } else {
        match split_once(l, '=') {
            None => None,
            Some((k, v)) => Some((trim(k), trim(v))),
        }
    }
}

/// The settings on `lines`, in order.
pub open spec fn cfg_entries_of(lines: Seq<Seq<char>>) -> Seq<(Seq<char>, Seq<char>)>
    decreases lines.len(),
{
    if lines.len() == 0 {
        seq![]
    } else {
        let before = cfg_entries_of(lines.drop_last());
        match cfg_entry(lines.last()) {
            Some(e) => before.push(e),
            None => before,
        }
    }
}

/// The settings in the text of a configuration file. Lines end at `\n`; a `\r` before it is
/// white space and trimmed away with the rest, so this reads lines as `str::lines` does.
pub open spec fn cfg_entries(text: Seq<char>) -> Seq<(Seq<char>, Seq<char>)> {
    cfg_entries_of(split_on(text, '\n'))
}

/// The view of a list of settings.
pub open spec fn entries_view(v: Seq<(String, String)>) -> Seq<(Seq<char>, Seq<char>)> {
    v.map_values(|e: (String, String)| (e.0@, e.1@))
}

/// Adds the setting on `line`, if it holds one.
fn add_entry(out: &mut Vec<(String, String)>, line: &Vec<char>)
    ensures
        entries_view(final(out)@) == match cfg_entry(line@) {
            Some(e) => entries_view(old(out)@).push(e),
            None => entries_view(old(out)@),
        },
{
    let l = trimmed(line);
    assert(entries_view(out@) =~= entries_view(old(out)@));
    if l.len() == 0 || l[0] == '#' {
        return;
    }
    match split_once_chars(&l, '=') {
        None => {},
        Some((k, v)) => {
            let key = string_of(&trimmed(&k));
            let value = string_of(&trimmed(&v));
            out.push((key, value));
            assert(entries_view(out@) =~= entries_view(old(out)@).push((key@, value@)));
        },
    }
}

/// The `key=value` settings in the text of a configuration file, in order.
pub fn parse_cfg_text(text: &str) -> (r: Vec<(String, String)>)
    ensures
        entries_view(r@) == cfg_entries(text@),
{
    let cs = chars_of(text);
    let mut out: Vec<(String, String)> = Vec::new();
    let mut cur: Vec<char> = Vec::new();
    assert(entries_view(out@) =~= seq![]);
    for i in 0..cs.len()
        invariant
            entries_view(out@) == cfg_entries_of(split_state(cs@.take(i as int), '\n').0),
            cur@ == split_state(cs@.take(i as int), '\n').1,
    {
        let c = cs[i];
        let ghost before = split_state(cs@.take(i as int), '\n');
        proof {
            assert(cs@.take(i + 1).drop_last() =~= cs@.take(i as int));
            assert(cs@.take(i + 1).last() == c);
        }
        if c == '\n' {
            add_entry(&mut out, &cur);
            proof {
                assert(before.0.push(before.1).drop_last() =~= before.0);
            }
            cur = Vec::new();
            assert(cur@ =~= seq![]);
        } else {
            cur.push(c);
        }
    }
    assert(cs@.take(cs.len() as int) =~= cs@);
    let ghost state = split_state(cs@, '\n');
    add_entry(&mut out, &cur);
    assert(state.0.push(state.1).drop_last() =~= state.0);
    out
}

proof fn lemma_entries_of_concat(x: Seq<Seq<char>>, y: Seq<Seq<char>>)
    ensures
        cfg_entries_of(x + y) == cfg_entries_of(x) + cfg_entries_of(y),
    decreases y.len(),
{
    if y.len() == 0 {
        assert(x + y =~= x);
        assert(cfg_entries_of(x) + cfg_entries_of(y) =~= cfg_entries_of(x));
    } else {
        lemma_entries_of_concat(x, y.drop_last());
        assert((x + y).drop_last() =~= x + y.drop_last());
        assert((x + y).last() == y.last());
        match cfg_entry(y.last()) {
            Some(e) => {
                assert((cfg_entries_of(x) + cfg_entries_of(y.drop_last())).push(e)
                    =~= cfg_entries_of(x) + cfg_entries_of(y.drop_last()).push(e));
            },
            None => {},
        }
    }
}

/// A configuration file is read line by line: the settings of two texts joined by a line
/// break are those of the first followed by those of the second.
pub proof fn lemma_cfg_entries_concat(a: Seq<char>, b: Seq<char>)
    ensures
        cfg_entries(a + seq!['\n'] + b) == cfg_entries(a) + cfg_entries(b),
{
    lemma_split_on_concat(a, '\n', b);
    lemma_entries_of_concat(split_on(a, '\n'), split_on(b, '\n'));
}

/// A line `key=value` (the key without `=`, the line not a comment) holds one setting: the key
/// trimmed, and the whole rest of the line after the first `=`, trimmed, white space inside it
/// kept.
pub proof fn lemma_cfg_line_entry(k: Seq<char>, v: Seq<char>)
    requires
        !k.contains('='),
        !k.contains('\n'),
        !v.contains('\n'),
        trim(k + seq!['='] + v)[0] != '#',
    ensures
        cfg_entries(k + seq!['='] + v) == seq![(trim(k), trim(v))],
{
    let l = k + seq!['='] + v;
    assert(!l.contains('\n')) by {
        if l.contains('\n') {
            let i = choose|i: int| 0 <= i < l.len() && l[i] == '\n';
            if i < k.len() {
                assert(k[i] == '\n');
            } else if i > k.len() {
                assert(v[i - k.len() - 1] == '\n');
            }
        }
    }
    lemma_split_state_without_sep(l, '\n');
    let lines = split_on(l, '\n');
    assert(lines =~= seq![l]);
    assert(lines.drop_last() =~= Seq::<Seq<char>>::empty());
    let ev = seq!['='] + v;
    assert(l =~= k + ev);
    lemma_trim_start_append(k, ev);
    let ks = trim_start(k);
    let head = ks + seq!['='];
    assert(trim_start(l) =~= head + v);
    assert(head.last() == '=');
    lemma_trim_end_prepend(head, v);
    let t = trim(l);
    assert(t == head + trim_end(v));
    assert(t =~= ks + seq!['='] + trim_end(v));
    lemma_trim_start_keeps_chars(k, '=');
    lemma_split_once_after_key(ks, trim_end(v));
    assert(t.len() > 0);
    lemma_trim_of_trim_start(k);
    lemma_trim_of_trim_end(v);
    assert(cfg_entry(l) == Some((trim(k), trim(v))));
    assert(cfg_entries_of(Seq::<Seq<char>>::empty()) == Seq::<(Seq<char>, Seq<char>)>::empty());
    assert(cfg_entries_of(lines) =~= seq![(trim(k), trim(v))]);
}

} // verus!
