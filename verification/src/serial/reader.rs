use crate::text::{
    chars_of, is_white_space, lemma_split_once_after_key, lemma_words_state_extend,
    lemma_split_once_parts, lemma_words_state_space, no_white_space, white_space, same_chars, split_once, split_once_chars, string_of, sub_chars,
    words, words_state,
};
use vstd::prelude::*;

verus! {

/// Why a line is no sensor reading.
#[derive(Debug, Clone, Copy, PartialEq, Eq, Structural)]
pub enum ValueMissingError {
    /// missing sensor_id
    SensorId,
    /// missing sensor_type
    SensorType,
    /// missing or invalid value
    MissingOrBadValue,
}

/// Whether `c` is a decimal digit.
pub open spec fn is_digit(c: char) -> bool {
    '0' <= c && c <= '9'
}

/// Whether every character of `s` is a decimal digit.
pub open spec fn all_digits(s: Seq<char>) -> bool {
    forall|i: int| 0 <= i < s.len() ==> is_digit(#[trigger] s[i])
}

/// Whether `c`, lowercased as ASCII, is the lowercase letter or character `w`.
pub open spec fn same_letter_ci(c: char, w: char) -> bool {
    c == w || ('a' <= w && w <= 'z' && (c as u32) + 32 == (w as u32))
}

/// Whether `s`, lowercased as ASCII, is `word`.
pub open spec fn spelled(s: Seq<char>, word: Seq<char>) -> bool {
    &&& s.len() == word.len()
    &&& forall|i: int| 0 <= i < s.len() ==> same_letter_ci(#[trigger] s[i], word[i])
}

/// `s` without a leading `+` or `-`.
pub open spec fn unsigned_part(s: Seq<char>) -> Seq<char> {
    if s.len() > 0 && (s[0] == '+' || s[0] == '-') {
        s.drop_first()
    } else {
        s
    }
}

/// `Digit+ | Digit+ '.' Digit* | Digit* '.' Digit+`.
pub open spec fn mantissa_text(m: Seq<char>) -> bool {
    match split_once(m, '.') {
        None => m.len() > 0 && all_digits(m),
        Some((a, b)) => all_digits(a) && all_digits(b) && a.len() + b.len() > 0,
    }
}

/// `Sign? Digit+`, what follows the `e` of an exponent.
pub open spec fn exponent_text(e: Seq<char>) -> bool {
    let d = unsigned_part(e);
    d.len() > 0 && all_digits(d)
}

/// Whether `c` starts an exponent.
pub open spec fn is_exp_marker(c: char) -> bool {
    c == 'e' || c == 'E'
}

/// `i` is the index of the first exponent marker in `s`.
pub open spec fn first_exp_at(s: Seq<char>, i: int) -> bool {
    &&& 0 <= i < s.len()
    &&& is_exp_marker(s[i])
    &&& forall|j: int| 0 <= j < i ==> !is_exp_marker(#[trigger] s[j])
}

/// `Mantissa Exp?`, with `Exp ::= 'e' Sign? Digit+`, case-insensitive.
pub open spec fn number_text(n: Seq<char>) -> bool {
    if exists|i: int| first_exp_at(n, i) {
        let i = choose|i: int| first_exp_at(n, i);
        mantissa_text(n.take(i)) && exponent_text(n.skip(i + 1))
    } else {
        mantissa_text(n)
    }
}

/// `inf`
pub open spec fn word_inf() -> Seq<char> {
    seq!['i', 'n', 'f']
}

/// `infinity`
pub open spec fn word_infinity() -> Seq<char> {
    seq!['i', 'n', 'f', 'i', 'n', 'i', 't', 'y']
}

/// `nan`
pub open spec fn word_nan() -> Seq<char> {
    seq!['n', 'a', 'n']
}

/// Whether `s` is in the grammar that `f64::from_str` accepts:
/// `Sign? ('inf' | 'infinity' | 'nan' | Number)`, letters in either case.
pub open spec fn float_text(s: Seq<char>) -> bool {
    let b = unsigned_part(s);
    spelled(b, word_inf()) || spelled(b, word_infinity()) || spelled(b, word_nan())
        || number_text(b)
}

/// `sensor_id`
pub open spec fn key_sensor_id() -> Seq<char> {
    seq!['s', 'e', 'n', 's', 'o', 'r', '_', 'i', 'd']
}

/// `sensor_type`
pub open spec fn key_sensor_type() -> Seq<char> {
    seq!['s', 'e', 'n', 's', 'o', 'r', '_', 't', 'y', 'p', 'e']
}

/// `value`
pub open spec fn key_value() -> Seq<char> {
    seq!['v', 'a', 'l', 'u', 'e']
}

/// The sensor id, sensor type and value text found in a line so far.
pub type LineFields = (Option<Seq<char>>, Option<Seq<char>>, Option<Seq<char>>);

/// The fields after reading the token `token`: a `key=value` token with a known key sets that
/// field (a `value` that is no number unsets it); every other token is ignored.
pub open spec fn apply_token(f: LineFields, token: Seq<char>) -> LineFields {
    match split_once(token, '=') {
        None => f,
        Some((k, v)) => if k == key_sensor_id() {
            (Some(v), f.1, f.2)
        } else if k == key_sensor_type() {
            (f.0, Some(v), f.2)
        } else if k == key_value() {
            (f.0, f.1, if float_text(v) { Some(v) } else { None })
        } else {
            f
        },
    }
}

/// The fields after reading `tokens` in order.
pub open spec fn fields_of(tokens: Seq<Seq<char>>) -> LineFields
    decreases tokens.len(),
{
    if tokens.len() == 0 {
        (None, None, None)
    } else {
        apply_token(fields_of(tokens.drop_last()), tokens.last())
    }
}

/// The reading that a line of white-space separated `key=value` tokens describes, as
/// `(sensor_id, sensor_type, value)`, or the first field that is missing.
pub open spec fn parse_reading(line: Seq<char>) -> Result<
    (Seq<char>, Seq<char>, Seq<char>),
    ValueMissingError,
> {
    match fields_of(words(line)) {
        (None, _, _) => Err(ValueMissingError::SensorId),
        (Some(_), None, _) => Err(ValueMissingError::SensorType),
        (Some(_), Some(_), None) => Err(ValueMissingError::MissingOrBadValue),
        (Some(id), Some(ty), Some(v)) => Ok((id, ty, v)),
    }
}

/// A sensor reading sent by the board.
#[derive(Debug, Clone)]
pub struct Reading {
    pub sensor_id: String,
    pub sensor_type: String,
    /// The value as the board wrote it, in the syntax of `f64::from_str`.
    pub value: String,
}

/// The view of a parse result.
pub open spec fn reading_result_view(r: Result<Reading, ValueMissingError>) -> Result<
    (Seq<char>, Seq<char>, Seq<char>),
    ValueMissingError,
> {
    match r {
        Ok(rd) => Ok((rd.sensor_id@, rd.sensor_type@, rd.value@)),
        Err(e) => Err(e),
    }
}

/// The view of an optional run of characters.
pub open spec fn opt_chars_view(o: Option<Vec<char>>) -> Option<Seq<char>> {
    match o {
        Some(v) => Some(v@),
        None => None,
    }
}

fn word_chars_inf() -> (r: Vec<char>)
    ensures
        r@ == word_inf(),
{
    let r = vec!['i', 'n', 'f'];
    assert(r@ =~= word_inf());
    r
}

fn word_chars_infinity() -> (r: Vec<char>)
    ensures
        r@ == word_infinity(),
{
    let r = vec!['i', 'n', 'f', 'i', 'n', 'i', 't', 'y'];
    assert(r@ =~= word_infinity());
    r
}

fn word_chars_nan() -> (r: Vec<char>)
    ensures
        r@ == word_nan(),
{
    let r = vec!['n', 'a', 'n'];
    assert(r@ =~= word_nan());
    r
}

fn key_chars_sensor_id() -> (r: Vec<char>)
    ensures
        r@ == key_sensor_id(),
{
    let r = vec!['s', 'e', 'n', 's', 'o', 'r', '_', 'i', 'd'];
    assert(r@ =~= key_sensor_id());
    r
}

fn key_chars_sensor_type() -> (r: Vec<char>)
    ensures
        r@ == key_sensor_type(),
{
    let r = vec!['s', 'e', 'n', 's', 'o', 'r', '_', 't', 'y', 'p', 'e'];
    assert(r@ =~= key_sensor_type());
    r
}

fn key_chars_value() -> (r: Vec<char>)
    ensures
        r@ == key_value(),
{
    let r = vec!['v', 'a', 'l', 'u', 'e'];
    assert(r@ =~= key_value());
    r
}

/// Whether every character of `v` is a decimal digit.
fn all_digit_chars(v: &Vec<char>) -> (r: bool)
    ensures
        r == all_digits(v@),
{
    for i in 0..v.len()
        invariant
            forall|j: int| 0 <= j < i ==> is_digit(#[trigger] v@[j]),
    {
        if !('0' <= v[i] && v[i] <= '9') {
            assert(!is_digit(v@[i as int]));
            return false;
        }
    }
    true
}

/// Whether `s`, lowercased as ASCII, is `word`.
fn spelled_chars(s: &Vec<char>, word: &Vec<char>) -> (r: bool)
    ensures
        r == spelled(s@, word@),
{
    if s.len() != word.len() {
        return false;
    }
    for i in 0..s.len()
        invariant
            s.len() == word.len(),
            forall|j: int| 0 <= j < i ==> same_letter_ci(#[trigger] s@[j], word@[j]),
    {
        let c = s[i];
        let w = word[i];
        if !(c == w || ('a' <= w && w <= 'z' && (c as u32) == (w as u32) - 32)) {
            assert(!same_letter_ci(s@[i as int], word@[i as int]));
            return false;
        }
    }
    true
}

/// `s` without a leading sign.
fn unsigned_chars(s: &Vec<char>) -> (r: Vec<char>)
    ensures
        r@ == unsigned_part(s@),
{
    if s.len() > 0 && (s[0] == '+' || s[0] == '-') {
        let r = sub_chars(s, 1, s.len());
        assert(r@ =~= s@.drop_first());
        r
    } else {
        let r = sub_chars(s, 0, s.len());
        assert(r@ =~= s@);
        r
    }
}

fn is_mantissa(m: &Vec<char>) -> (r: bool)
    ensures
        r == mantissa_text(m@),
{
    match split_once_chars(m, '.') {
        None => m.len() > 0 && all_digit_chars(m),
        Some((a, b)) => all_digit_chars(&a) && all_digit_chars(&b) && (a.len() > 0 || b.len() > 0),
    }
}

fn is_exponent(e: &Vec<char>) -> (r: bool)
    ensures
        r == exponent_text(e@),
{
    let d = unsigned_chars(e);
    d.len() > 0 && all_digit_chars(&d)
}

fn is_number(n: &Vec<char>) -> (r: bool)
    ensures
        r == number_text(n@),
{
    let mut i: usize = 0;
    while i < n.len()
        invariant
            i <= n.len(),
            forall|j: int| 0 <= j < i ==> !is_exp_marker(#[trigger] n@[j]),
        decreases n.len() - i,
    {
        if n[i] == 'e' || n[i] == 'E' {
            proof {
                assert(first_exp_at(n@, i as int));
                let found = choose|k: int| first_exp_at(n@, k);
                assert(found == i) by {
                    if found < i {
                        assert(!is_exp_marker(n@[found]));
                    } else if found > i {
                        assert(!is_exp_marker(n@[i as int]));
                    }
                }
            }
            let m = sub_chars(n, 0, i);
            let e = sub_chars(n, i + 1, n.len());
            assert(m@ =~= n@.take(i as int));
            assert(e@ =~= n@.skip(i + 1));
            return is_mantissa(&m) && is_exponent(&e);
        }
        i += 1;
    }
    assert(!exists|k: int| first_exp_at(n@, k)) by {
        if exists|k: int| first_exp_at(n@, k) {
            let k = choose|k: int| first_exp_at(n@, k);
            assert(!is_exp_marker(n@[k]));
        }
    }
    is_mantissa(n)
}

/// Whether `s` is text that `f64::from_str` accepts.
pub fn is_float_text(s: &Vec<char>) -> (r: bool)
    ensures
        r == float_text(s@),
{
    let b = unsigned_chars(s);
    spelled_chars(&b, &word_chars_inf()) || spelled_chars(&b, &word_chars_infinity())
        || spelled_chars(&b, &word_chars_nan()) || is_number(&b)
}

/// Reads the token `token` into the fields.
fn read_token(
    id: &mut Option<Vec<char>>,
    ty: &mut Option<Vec<char>>,
    value: &mut Option<Vec<char>>,
    token: &Vec<char>,
)
    ensures
        (opt_chars_view(*final(id)), opt_chars_view(*final(ty)), opt_chars_view(*final(value)))
            == apply_token(
            (opt_chars_view(*old(id)), opt_chars_view(*old(ty)), opt_chars_view(*old(value))),
            token@,
        ),
{
    match split_once_chars(token, '=') {
        None => {},
        Some((k, v)) => {
            if same_chars(&k, &key_chars_sensor_id()) {
                *id = Some(v);
            } else if same_chars(&k, &key_chars_sensor_type()) {
                *ty = Some(v);
            } else if same_chars(&k, &key_chars_value()) {
                if is_float_text(&v) {
                    *value = Some(v);
                } else {
                    *value = None;
                }
            }
        },
    }
}

impl Reading {
    /// Parses a line of white-space separated `key=value` tokens. `sensor_id`, `sensor_type`
    /// and `value` are read (the last of each wins; a `value` that is no number counts as
    /// missing); other tokens are ignored.
    pub fn from_key_value_line(line: &str) -> (r: Result<Reading, ValueMissingError>)
        ensures
            reading_result_view(r) == parse_reading(line@),
    {
        let cs = chars_of(line);
        let mut id: Option<Vec<char>> = None;
        let mut ty: Option<Vec<char>> = None;
        let mut value: Option<Vec<char>> = None;
        let mut cur: Vec<char> = Vec::new();
        for i in 0..cs.len()
            invariant
                (opt_chars_view(id), opt_chars_view(ty), opt_chars_view(value)) == fields_of(
                    words_state(cs@.take(i as int)).0,
                ),
                cur@ == words_state(cs@.take(i as int)).1,
        {
            let c = cs[i];
            let ghost before = words_state(cs@.take(i as int));
            proof {
                assert(cs@.take(i + 1).drop_last() =~= cs@.take(i as int));
                assert(cs@.take(i + 1).last() == c);
            }
            if is_white_space(c) {
                if cur.len() > 0 {
                    read_token(&mut id, &mut ty, &mut value, &cur);
                    proof {
                        assert(before.0.push(before.1).drop_last() =~= before.0);
                    }
                    cur = Vec::new();
                    assert(cur@ =~= seq![]);
                }
            } else {
                cur.push(c);
            }
        }
        assert(cs@.take(cs.len() as int) =~= cs@);
        let ghost state = words_state(cs@);
        if cur.len() > 0 {
            read_token(&mut id, &mut ty, &mut value, &cur);
            assert(state.0.push(state.1).drop_last() =~= state.0);
        }
        match (id, ty, value) {
            (None, _, _) => Err(ValueMissingError::SensorId),
            (Some(_), None, _) => Err(ValueMissingError::SensorType),
            (Some(_), Some(_), None) => Err(ValueMissingError::MissingOrBadValue),
            (Some(a), Some(b), Some(v)) => Ok(
                Reading { sensor_id: string_of(&a), sensor_type: string_of(&b), value: string_of(&v) },
            ),
        }
    }
}

/// `s` without the carriage returns and line feeds at its end
/// (`str::trim_end_matches(&['\r', '\n'][..])`).
pub open spec fn trim_line_end(s: Seq<char>) -> Seq<char>
    decreases s.len(),
{
    if s.len() > 0 && (s.last() == '\r' || s.last() == '\n') {
        trim_line_end(s.drop_last())
    } else {
        s
    }
}

/// What one read from the serial port gave.
#[derive(Debug, Clone)]
pub enum ReadOutcome {
    /// A line (with its line ending, if any).
    Line(String),
    /// The port had no more data.
    EndOfData,
    /// No line arrived within the read timeout.
    TimedOut,
    /// Reading failed.
    Failed,
}

/// What the reader does with the outcome of a read.
#[derive(Debug, Clone)]
pub enum ReaderAction {
    /// Hand the reading on to the database writer.
    Forward(Reading),
    /// Nothing to do.
    Ignore,
    /// The line was no reading, for this reason.
    Reject(ValueMissingError),
    /// Tell the serial manager that reading failed.
    ReportFailure,
}

/// Whether `a` is the action that the line `line` calls for.
pub open spec fn line_action(line: Seq<char>, a: ReaderAction) -> bool {
    let t = trim_line_end(line);
    if t.len() == 0 {
        a is Ignore
    } else {
        match parse_reading(t) {
            Ok(v) => a matches ReaderAction::Forward(rd) && (rd.sensor_id@, rd.sensor_type@, rd.value@)
                == v,
            Err(e) => a == ReaderAction::Reject(e),
        }
    }
}

/// The length of `v` without the carriage returns and line feeds at its end.
fn line_end_trimmed_len(v: &Vec<char>) -> (r: usize)
    ensures
        r <= v.len(),
        v@.take(r as int) == trim_line_end(v@),
{
    let mut end = v.len();
    assert(v@.take(end as int) =~= v@);
    while end > 0 && (v[end - 1] == '\r' || v[end - 1] == '\n')
        invariant
            end <= v.len(),
            trim_line_end(v@) == trim_line_end(v@.take(end as int)),
        decreases end,
    {
        assert(v@.take(end as int).drop_last() =~= v@.take(end - 1));
        end -= 1;
    }
    end
}

/// The reading in a line read from the port: the line ending is dropped, an empty line is
/// ignored, and the rest is parsed as `key=value` tokens.
pub fn reading_from_line(line: &str) -> (r: ReaderAction)
    ensures
        line_action(line@, r),
{
    let cs = chars_of(line);
    let end = line_end_trimmed_len(&cs);
    if end == 0 {
        return ReaderAction::Ignore;
    }
    let text = string_of(&sub_chars(&cs, 0, end));
    assert(cs@.subrange(0, end as int) =~= cs@.take(end as int));
    match Reading::from_key_value_line(text.as_str()) {
        Ok(reading) => ReaderAction::Forward(reading),
        Err(e) => ReaderAction::Reject(e),
    }
}

/// What the reader does after a read: a line goes through `reading_from_line`, a failure is
/// reported to the serial manager, and the end of data or a timeout is no event.
pub fn on_read(outcome: ReadOutcome) -> (r: ReaderAction)
    ensures
        match outcome {
            ReadOutcome::Line(text) => line_action(text@, r),
            ReadOutcome::Failed => r is ReportFailure,
            _ => r is Ignore,
        },
{
    match outcome {
        ReadOutcome::Line(text) => reading_from_line(text.as_str()),
        ReadOutcome::EndOfData => ReaderAction::Ignore,
        ReadOutcome::TimedOut => ReaderAction::Ignore,
        ReadOutcome::Failed => ReaderAction::ReportFailure,
    }
}

/// Messages to the reader.
pub enum ReaderMsg<R> {
    /// Read from this port from now on.
    SetReader(R),
    /// Stop reading.
    Disconnect,
}

/// Whether the reader has a port to read from.
pub enum ReaderState<R> {
    Disconnected,
    Connected(R),
}

impl<R> ReaderState<R> {
    /// The reader before any port is handed to it.
    pub fn new() -> (r: Self)
        ensures
            r is Disconnected,
    {
        ReaderState::Disconnected
    }

    /// Takes a message: a new port replaces the old one, a disconnect drops it.
    pub fn handle_msg(&mut self, msg: ReaderMsg<R>)
        ensures
            match msg {
                ReaderMsg::SetReader(port) => *final(self) == ReaderState::Connected(port),
                ReaderMsg::Disconnect => *final(self) == ReaderState::<R>::Disconnected,
            },
    {
        match msg {
            ReaderMsg::SetReader(port) => {
                *self = ReaderState::Connected(port);
            },
            ReaderMsg::Disconnect => {
                *self = ReaderState::Disconnected;
            },
        }
    }
}

/// The line that the board sends for a reading: `sensor_id=.. sensor_type=.. value=..`.
pub open spec fn reading_line(id: Seq<char>, ty: Seq<char>, value: Seq<char>) -> Seq<char> {
    key_sensor_id() + seq!['='] + id + seq![' '] + key_sensor_type() + seq!['='] + ty + seq![' ']
        + key_value() + seq!['='] + value
}

proof fn lemma_key_token_plain(key: Seq<char>, v: Seq<char>)
    requires
        no_white_space(key),
        !key.contains('='),
        no_white_space(v),
    ensures
        no_white_space(key + seq!['='] + v),
{
    let t = key + seq!['='] + v;
    assert forall|i: int| 0 <= i < t.len() implies !white_space(#[trigger] t[i]) by {
        if i < key.len() {
            assert(t[i] == key[i]);
        } else if i == key.len() {
            assert(t[i] == '=');
        } else {
            assert(t[i] == v[i - key.len() - 1]);
        }
    }
}

/// A reading written as the board writes it reads back as the same reading, for any sensor id
/// and type without white space and any value that is a number.
pub proof fn lemma_reading_line_round_trip(id: Seq<char>, ty: Seq<char>, value: Seq<char>)
    requires
        no_white_space(id),
        no_white_space(ty),
        float_text(value),
    ensures
        parse_reading(reading_line(id, ty, value)) == Ok::<
            (Seq<char>, Seq<char>, Seq<char>),
            ValueMissingError,
        >((id, ty, value)),
{
    lemma_float_text_plain(value);
    let k1 = key_sensor_id();
    let k2 = key_sensor_type();
    let k3 = key_value();
    assert(no_white_space(k1) && !k1.contains('=')) by {
        assert(k1 =~= seq!['s', 'e', 'n', 's', 'o', 'r', '_', 'i', 'd']);
    }
    assert(no_white_space(k2) && !k2.contains('=')) by {
        assert(k2 =~= seq!['s', 'e', 'n', 's', 'o', 'r', '_', 't', 'y', 'p', 'e']);
    }
    assert(no_white_space(k3) && !k3.contains('=')) by {
        assert(k3 =~= seq!['v', 'a', 'l', 'u', 'e']);
    }
    let t1 = k1 + seq!['='] + id;
    let t2 = k2 + seq!['='] + ty;
    let t3 = k3 + seq!['='] + value;
    lemma_key_token_plain(k1, id);
    lemma_key_token_plain(k2, ty);
    lemma_key_token_plain(k3, value);
    let e = Seq::<char>::empty();
    let e2 = Seq::<Seq<char>>::empty();
    assert(words_state(e) == (e2, e));
    lemma_words_state_extend(e, t1);
    assert(e + t1 =~= t1);
    assert(e + t1 =~= t1);
    let s1 = t1.push(' ');
    lemma_words_state_space(t1, ' ');
    assert(words_state(s1) == (e2.push(t1), e));
    lemma_words_state_extend(s1, t2);
    assert(e + t2 =~= t2);
    let s2 = (s1 + t2).push(' ');
    lemma_words_state_space(s1 + t2, ' ');
    assert(words_state(s2) == (e2.push(t1).push(t2), e));
    lemma_words_state_extend(s2, t3);
    let line = reading_line(id, ty, value);
    assert(line =~= s2 + t3);
    let ws = e2.push(t1).push(t2).push(t3);
    assert(words(line) == ws);
    lemma_split_once_after_key(k1, id);
    lemma_split_once_after_key(k2, ty);
    lemma_split_once_after_key(k3, value);
    assert(k2 != k1 && k3 != k1 && k3 != k2) by {
        assert(k2.len() != k1.len() && k3.len() != k1.len() && k3.len() != k2.len());
    }
    assert(ws.drop_last() =~= e2.push(t1).push(t2));
    assert(e2.push(t1).push(t2).drop_last() =~= e2.push(t1));
    assert(e2.push(t1).drop_last() =~= e2);
    reveal_with_fuel(fields_of, 4);
}

/// A character that can occur in a number: a digit, `.`, `e`, `E`, `+` or `-`.
pub open spec fn number_char(c: char) -> bool {
    is_digit(c) || c == '.' || c == 'e' || c == 'E' || c == '+' || c == '-'
}

proof fn lemma_number_chars_plain(s: Seq<char>)
    requires
        forall|i: int| 0 <= i < s.len() ==> number_char(#[trigger] s[i]),
    ensures
        no_white_space(s),
{
    assert forall|i: int| 0 <= i < s.len() implies !white_space(#[trigger] s[i]) by {
        assert(number_char(s[i]));
    }
}

proof fn lemma_mantissa_chars(m: Seq<char>)
    requires
        mantissa_text(m),
    ensures
        forall|i: int| 0 <= i < m.len() ==> number_char(#[trigger] m[i]),
{
    lemma_split_once_parts(m, '.');
    match split_once(m, '.') {
        None => {
            assert forall|i: int| 0 <= i < m.len() implies number_char(#[trigger] m[i]) by {
                assert(is_digit(m[i]));
            }
        },
        Some((a, b)) => {
            assert forall|i: int| 0 <= i < m.len() implies number_char(#[trigger] m[i]) by {
                if i < a.len() {
                    assert(m[i] == a[i]);
                    assert(is_digit(a[i]));
                } else if i > a.len() {
                    assert(m[i] == b[i - a.len() - 1]);
                    assert(is_digit(b[i - a.len() - 1]));
                } else {
                    assert(m[i] == '.');
                }
            }
        },
    }
}

proof fn lemma_exponent_chars(e: Seq<char>)
    requires
        exponent_text(e),
    ensures
        forall|i: int| 0 <= i < e.len() ==> number_char(#[trigger] e[i]),
{
    let d = unsigned_part(e);
    assert forall|i: int| 0 <= i < e.len() implies number_char(#[trigger] e[i]) by {
        if d.len() == e.len() {
            assert(d =~= e);
            assert(is_digit(d[i]));
        } else {
            if i > 0 {
                assert(e[i] == d[i - 1]);
                assert(is_digit(d[i - 1]));
            }
        }
    }
}

proof fn lemma_number_text_chars(n: Seq<char>)
    requires
        number_text(n),
    ensures
        forall|i: int| 0 <= i < n.len() ==> number_char(#[trigger] n[i]),
{
    if exists|k: int| first_exp_at(n, k) {
        let k = choose|k: int| first_exp_at(n, k);
        let m = n.take(k);
        let e = n.skip(k + 1);
        lemma_mantissa_chars(m);
        lemma_exponent_chars(e);
        assert forall|i: int| 0 <= i < n.len() implies number_char(#[trigger] n[i]) by {
            if i < k {
                assert(n[i] == m[i]);
            } else if i > k {
                assert(n[i] == e[i - k - 1]);
            }
        }
    } else {
        lemma_mantissa_chars(n);
    }
}

proof fn lemma_spelled_plain(s: Seq<char>, word: Seq<char>)
    requires
        spelled(s, word),
        forall|i: int| 0 <= i < word.len() ==> 'a' <= #[trigger] word[i] && word[i] <= 'z',
    ensures
        no_white_space(s),
{
    assert forall|i: int| 0 <= i < s.len() implies !white_space(#[trigger] s[i]) by {
        assert(same_letter_ci(s[i], word[i]));
        assert('a' <= word[i] && word[i] <= 'z');
    }
}

/// Text that `f64::from_str` accepts holds no white space.
pub proof fn lemma_float_text_plain(s: Seq<char>)
    requires
        float_text(s),
    ensures
        no_white_space(s),
{
    let b = unsigned_part(s);
    if spelled(b, word_inf()) {
        lemma_spelled_plain(b, word_inf());
    } else if spelled(b, word_infinity()) {
        lemma_spelled_plain(b, word_infinity());
    } else if spelled(b, word_nan()) {
        lemma_spelled_plain(b, word_nan());
    } else {
        lemma_number_text_chars(b);
        lemma_number_chars_plain(b);
    }
    assert forall|i: int| 0 <= i < s.len() implies !white_space(#[trigger] s[i]) by {
        if b.len() == s.len() {
            assert(b =~= s);
            assert(!white_space(b[i]));
        } else if i > 0 {
            assert(s[i] == b[i - 1]);
            assert(!white_space(b[i - 1]));
        }
    }
}

/// What one token does: `sensor_id=x` and `sensor_type=x` set that field to `x` (whatever the
/// field held), `value=x` sets the value to `x` when `x` is a number and clears it otherwise;
/// a token with another key, or without `=`, changes nothing.
pub proof fn lemma_token_effects(f: LineFields, k: Seq<char>, v: Seq<char>, plain: Seq<char>)
    requires
        !k.contains('='),
        !plain.contains('='),
    ensures
        apply_token(f, plain) == f,
        apply_token(f, k + seq!['='] + v) == if k == key_sensor_id() {
            (Some(v), f.1, f.2)
        } else if k == key_sensor_type() {
            (f.0, Some(v), f.2)
        } else if k == key_value() {
            (f.0, f.1, if float_text(v) { Some(v) } else { None })
        } else {
            f
        },
{
    lemma_split_once_after_key(k, v);
    assert(!exists|i: int| crate::text::first_at(plain, '=', i)) by {
        if exists|i: int| crate::text::first_at(plain, '=', i) {
            let i = choose|i: int| crate::text::first_at(plain, '=', i);
            assert(plain[i] == '=');
        }
    }
}

} // verus!
