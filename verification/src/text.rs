//! Character-level text utilities: the views of `str` and `String` as
//! sequences of `char`, line splitting, trimming, prefix tests, searching,
//! and decimal conversion, each with a specification over `Seq<char>`.
use vstd::prelude::*;

verus! {

broadcast use vstd::string::group_string_axioms;

// ---------------------------------------------------------------------------
// Conversions between strings and character vectors
// ---------------------------------------------------------------------------

/// The characters of `s`, in order; there are no more of them than a
/// `usize` counts, as they fit in a vector.
pub fn chars_of(s: &str) -> (v: Vec<char>)
    ensures
        v@ == s@,
        s@.len() <= usize::MAX,
{
    let mut v: Vec<char> = Vec::new();
    for c in it: s.chars()
        invariant
            v@ == it.seq().take(it.index() as int),
    {
        v.push(c);
    }
    assert(v@ =~= s@);
    let _count: usize = v.len();
    v
}

/// Appends one character to a string (`String::push`).
#[verifier::external_body]
fn string_push(s: &mut String, c: char)
    ensures
        final(s)@ == old(s)@.push(c),
{
    s.push(c);
}

/// Removes the last character of a string (`String::pop`): it gives back that
/// character, or `None` and leaves the string as it was when it is empty.
#[verifier::external_body]
pub(crate) fn string_pop(s: &mut String) -> (r: Option<char>)
    ensures
        old(s)@.len() == 0 ==> r is None && final(s)@ == old(s)@,
        old(s)@.len() > 0 ==> r == Some(old(s)@.last()) && final(s)@ == old(s)@.drop_last(),
{
    s.pop()
}

/// Appends `c` to the string `s` in place.
pub fn push_char(s: &mut String, c: char)
    ensures
        final(s)@ == old(s)@.push(c),
{
    string_push(s, c);
}

/// The string made of the characters of `v`, in order.
pub fn string_from_chars(v: &Vec<char>) -> (s: String)
    ensures
        s@ == v@,
{
    let mut s = String::new();
    let n = v.len();
    for i in 0..n
        invariant
            n == v@.len(),
            s@ == v@.take(i as int),
    {
        string_push(&mut s, v[i]);
        assert(v@.take(i + 1) =~= v@.take(i as int).push(v@[i as int]));
    }
    assert(v@.take(n as int) =~= v@);
    s
}

/// Appends all characters of `w` to `v`.
pub fn extend_chars(v: &mut Vec<char>, w: &Vec<char>)
    ensures
        final(v)@ == old(v)@ + w@,
{
    let n = w.len();
    for i in 0..n
        invariant
            n == w@.len(),
            v@ == old(v)@ + w@.take(i as int),
    {
        v.push(w[i]);
        assert(w@.take(i + 1) =~= w@.take(i as int).push(w@[i as int]));
    }
    assert(w@.take(n as int) =~= w@);
}

/// Appends all characters of `s` to `v`.
pub fn extend_str(v: &mut Vec<char>, s: &str)
    ensures
        final(v)@ == old(v)@ + s@,
{
    let w = chars_of(s);
    extend_chars(v, &w);
}

/// The characters of `v` in positions `start .. end`.
pub fn slice_chars(v: &Vec<char>, start: usize, end: usize) -> (r: Vec<char>)
    requires
        start <= end <= v@.len(),
    ensures
        r@ == v@.subrange(start as int, end as int),
{
    let mut r: Vec<char> = Vec::new();
    let mut i = start;
    while i < end
        invariant
            start <= i <= end <= v@.len(),
            r@ == v@.subrange(start as int, i as int),
        decreases end - i,
    {
        r.push(v[i]);
        assert(v@.subrange(start as int, i + 1) =~= v@.subrange(start as int, i as int).push(
            v@[i as int],
        ));
        i = i + 1;
    }
    r
}

/// Whether two character vectors hold the same characters.
pub fn chars_equal(a: &Vec<char>, b: &Vec<char>) -> (r: bool)
    ensures
        r == (a@ == b@),
{
    if a.len() != b.len() {
        return false;
    }
    let n = a.len();
    for i in 0..n
        invariant
            n == a@.len() == b@.len(),
            forall|j: int| 0 <= j < i ==> a@[j] == b@[j],
    {
        if a[i] != b[i] {
            return false;
        }
    }
    assert(a@ =~= b@);
    true
}

// ---------------------------------------------------------------------------
// Prefixes and searching
// ---------------------------------------------------------------------------

/// `p` is a prefix of `s`.
pub open spec fn has_prefix(s: Seq<char>, p: Seq<char>) -> bool {
    p.len() <= s.len() && s.take(p.len() as int) == p
}

/// Whether `p` is a prefix of `s`.
pub fn starts_with(s: &Vec<char>, p: &Vec<char>) -> (r: bool)
    ensures
        r == has_prefix(s@, p@),
{
    if p.len() > s.len() {
        return false;
    }
    let n = p.len();
    for i in 0..n
        invariant
            n == p@.len() <= s@.len(),
            forall|j: int| 0 <= j < i ==> s@[j] == p@[j],
    {
        if s[i] != p[i] {
            assert(s@.take(n as int)[i as int] != p@[i as int]);
            return false;
        }
    }
    assert(s@.take(n as int) =~= p@);
    true
}

/// Whether `p` is a prefix of `s`, for a string literal `p`.
pub fn starts_with_str(s: &Vec<char>, p: &str) -> (r: bool)
    ensures
        r == has_prefix(s@, p@),
{
    let pv = chars_of(p);
    starts_with(s, &pv)
}

/// The first position at or after `from` that holds `c`, or the length of `s`
/// when there is none.
pub open spec fn find_from(s: Seq<char>, c: char, from: int) -> int
    decreases s.len() - from,
{
    if from >= s.len() {
        s.len() as int
    } else if from >= 0 && s[from] == c {
        from
    } else {
        find_from(s, c, from + 1)
    }
}

/// What `find_from` gives: a position in `from ..= s.len()` that holds `c`
/// unless it is the end, with no `c` between `from` and it.
pub proof fn lemma_find_from(s: Seq<char>, c: char, from: int)
    requires
        0 <= from <= s.len(),
    ensures
        from <= find_from(s, c, from) <= s.len(),
        find_from(s, c, from) < s.len() ==> s[find_from(s, c, from)] == c,
        forall|k: int| from <= k < find_from(s, c, from) ==> s[k] != c,
    decreases s.len() - from,
{
    if from < s.len() && s[from] != c {
        lemma_find_from(s, c, from + 1);
    }
}

/// A position `i` in `from .. s.len()` holding `c`, with no `c` between
/// `from` and `i`, is what `find_from` gives.
pub proof fn lemma_find_from_is(s: Seq<char>, c: char, from: int, i: int)
    requires
        0 <= from <= i <= s.len(),
        i < s.len() ==> s[i] == c,
        forall|k: int| from <= k < i ==> s[k] != c,
    ensures
        find_from(s, c, from) == i,
{
    lemma_find_from(s, c, from);
    let r = find_from(s, c, from);
    if r < i {
        assert(s[r] == c);
    } else if r > i {
        assert(s[i] != c);
    }
}

/// The position of the first `c` at or after `from`, or the length of `v`.
pub fn find_char(v: &Vec<char>, c: char, from: usize) -> (r: usize)
    requires
        from <= v@.len(),
    ensures
        r == find_from(v@, c, from as int),
{
    let mut i = from;
    while i < v.len()
        invariant
            from <= i <= v@.len(),
            forall|k: int| from <= k < i ==> v@[k] != c,
        decreases v@.len() - i,
    {
        if v[i] == c {
            proof {
                lemma_find_from_is(v@, c, from as int, i as int);
            }
            return i;
        }
        i = i + 1;
    }
    proof {
        lemma_find_from_is(v@, c, from as int, i as int);
    }
    i
}

// ---------------------------------------------------------------------------
// Lines
// ---------------------------------------------------------------------------

/// A line without the carriage return that ends it, if any.
pub open spec fn strip_cr(line: Seq<char>) -> Seq<char> {
    if line.len() > 0 && line.last() == '\r' {
        line.drop_last()
    } else {
        line
    }
}

/// The lines of `s` from position `start` on, as `str::lines` gives them:
/// pieces ended by `'\n'`, each without its `'\n'` and then without one
/// `'\r'` before it; a last piece with no `'\n'` is kept as it is, and an
/// empty text after the last `'\n'` is no line.
pub open spec fn lines_from(s: Seq<char>, start: int) -> Seq<Seq<char>>
    decreases s.len() - start,
{
    if start < 0 || start >= s.len() {
        Seq::empty()
    } else {
        let e = find_from(s, '\n', start);
        if e >= s.len() {
            seq![s.subrange(start, s.len() as int)]
        } else {
            proof {
                lemma_find_from(s, '\n', start);
            }
            seq![strip_cr(s.subrange(start, e))] + lines_from(s, e + 1)
        }
    }
}

/// The lines of `s`, as `str::lines` gives them.
pub open spec fn lines_of(s: Seq<char>) -> Seq<Seq<char>> {
    lines_from(s, 0)
}

/// The width of a line, an empty line counted as one.
pub open spec fn line_span(line: Seq<char>) -> nat {
    if line.len() > 0 {
        line.len()
    } else {
        1
    }
}

/// The widths of lines added up, each empty line counted as one.
pub open spec fn total_line_cost(lines: Seq<Seq<char>>) -> nat
    decreases lines.len(),
{
    if lines.len() == 0 {
        0
    } else {
        total_line_cost(lines.drop_last()) + line_span(lines.last())
    }
}

pub proof fn lemma_total_line_cost_prepend(l: Seq<char>, rest: Seq<Seq<char>>)
    ensures
        total_line_cost(seq![l] + rest) == line_span(l) + total_line_cost(rest),
    decreases rest.len(),
{
    if rest.len() == 0 {
        assert(seq![l] + rest =~= seq![l]);
        assert(seq![l].drop_last() =~= Seq::<Seq<char>>::empty());
        assert(total_line_cost(Seq::<Seq<char>>::empty()) == 0);
        assert(seq![l].last() == l);
    } else {
        assert((seq![l] + rest).drop_last() =~= seq![l] + rest.drop_last());
        assert((seq![l] + rest).last() == rest.last());
        lemma_total_line_cost_prepend(l, rest.drop_last());
    }
}

/// The lines of `s` from `start` on, each empty line counted as one, are no
/// wider together than the rest of the text: an empty line has a line break
/// of its own.
pub proof fn lemma_lines_from_cost(s: Seq<char>, start: int)
    requires
        0 <= start <= s.len(),
    ensures
        total_line_cost(lines_from(s, start)) <= s.len() - start,
    decreases s.len() - start,
{
    if start < s.len() {
        let e = find_from(s, '\n', start);
        lemma_find_from(s, '\n', start);
        if e >= s.len() {
            let l = s.subrange(start, s.len() as int);
            lemma_total_line_cost_prepend(l, Seq::empty());
            assert(seq![l] + Seq::<Seq<char>>::empty() =~= seq![l]);
        } else {
            lemma_lines_from_cost(s, e + 1);
            let l = strip_cr(s.subrange(start, e));
            assert(l.len() <= e - start);
            lemma_total_line_cost_prepend(l, lines_from(s, e + 1));
        }
    } else {
        assert(lines_from(s, start) =~= Seq::<Seq<char>>::empty());
    }
}

/// The lines of the text in `v`, as `str::lines` gives them.
pub fn split_lines(v: &Vec<char>) -> (r: Vec<Vec<char>>)
    ensures
        r@.len() == lines_of(v@).len(),
        forall|i: int| 0 <= i < r@.len() ==> #[trigger] r@[i]@ == lines_of(v@)[i],
{
    let mut r: Vec<Vec<char>> = Vec::new();
    let mut start: usize = 0;
    let ghost done: Seq<Seq<char>> = Seq::empty();
    while start < v.len()
        invariant
            0 <= start <= v@.len(),
            done.len() == r@.len(),
            forall|i: int| 0 <= i < r@.len() ==> #[trigger] r@[i]@ == done[i],
            lines_of(v@) == done + lines_from(v@, start as int),
        decreases v@.len() - start,
    {
        let e = find_char(v, '\n', start);
        proof {
            lemma_find_from(v@, '\n', start as int);
        }
        if e >= v.len() {
            let line = slice_chars(v, start, v.len());
            r.push(line);
            proof {
                done = done.push(v@.subrange(start as int, v@.len() as int));
                assert(lines_from(v@, v@.len() as int) =~= Seq::<Seq<char>>::empty());
            }
            start = v.len();
        } else {
            let mut end = e;
            if e > start && v[e - 1] == '\r' {
                end = e - 1;
            }
            let line = slice_chars(v, start, end);
            proof {
                let piece = v@.subrange(start as int, e as int);
                assert(strip_cr(piece) =~= v@.subrange(start as int, end as int));
                assert(done + lines_from(v@, start as int) =~= done.push(strip_cr(piece))
                    + lines_from(v@, e + 1));
                done = done.push(strip_cr(piece));
            }
            r.push(line);
            start = e + 1;
        }
    }
    proof {
        assert(lines_from(v@, start as int) =~= Seq::<Seq<char>>::empty());
        assert(lines_of(v@) =~= done);
    }
    r
}

// ---------------------------------------------------------------------------
// White space and trimming
// ---------------------------------------------------------------------------

/// The Unicode `White_Space` characters, those for which `char::is_whitespace`
/// holds.
pub open spec fn is_white_space(c: char) -> bool {
    let u = c as u32;
    ||| 9 <= u <= 13
    ||| u == 32
    ||| u == 0x85
    ||| u == 0xA0
    ||| u == 0x1680
    ||| 0x2000 <= u <= 0x200A
    ||| u == 0x2028
    ||| u == 0x2029
    ||| u == 0x202F
    ||| u == 0x205F
    ||| u == 0x3000
}

/// Whether `c` is white space.
pub fn char_is_white_space(c: char) -> (r: bool)
    ensures
        r == is_white_space(c),
{
    let u = c as u32;
    (9 <= u && u <= 13) || u == 32 || u == 0x85 || u == 0xA0 || u == 0x1680 || (0x2000 <= u && u
        <= 0x200A) || u == 0x2028 || u == 0x2029 || u == 0x202F || u == 0x205F || u == 0x3000
}

/// The text without its leading white space.
pub open spec fn trim_start(s: Seq<char>) -> Seq<char>
    decreases s.len(),
{
    if s.len() > 0 && is_white_space(s[0]) {
        trim_start(s.drop_first())
    } else {
        s
    }
}

/// The text without its trailing white space.
pub open spec fn trim_end(s: Seq<char>) -> Seq<char>
    decreases s.len(),
{
    if s.len() > 0 && is_white_space(s.last()) {
        trim_end(s.drop_last())
    } else {
        s
    }
}

/// The text without leading and trailing white space, as `str::trim` gives it.
pub open spec fn trim(s: Seq<char>) -> Seq<char> {
    trim_end(trim_start(s))
}

proof fn lemma_trim_start_skip(s: Seq<char>, i: int)
    requires
        0 <= i <= s.len(),
        forall|k: int| 0 <= k < i ==> is_white_space(s[k]),
    ensures
        trim_start(s) == trim_start(s.skip(i)),
    decreases i,
{
    if i > 0 {
        assert(s.drop_first().skip(i - 1) =~= s.skip(i));
        lemma_trim_start_skip(s.drop_first(), i - 1);
    } else {
        assert(s.skip(0) =~= s);
    }
}

proof fn lemma_trim_end_take(s: Seq<char>, j: int)
    requires
        0 <= j <= s.len(),
        forall|k: int| j <= k < s.len() ==> is_white_space(s[k]),
    ensures
        trim_end(s) == trim_end(s.take(j)),
    decreases s.len() - j,
{
    if j < s.len() {
        assert(s.drop_last().take(j) =~= s.take(j));
        lemma_trim_end_take(s.drop_last(), j);
    } else {
        assert(s.take(j) =~= s);
    }
}

/// The characters of `v` without leading and trailing white space.
pub fn trim_chars(v: &Vec<char>) -> (r: Vec<char>)
    ensures
        r@ == trim(v@),
{
    let n = v.len();
    let mut i: usize = 0;
    while i < n && char_is_white_space(v[i])
        invariant
            n == v@.len(),
            i <= n,
            forall|k: int| 0 <= k < i ==> is_white_space(v@[k]),
        decreases n - i,
    {
        i = i + 1;
    }
    proof {
        lemma_trim_start_skip(v@, i as int);
    }
    let ghost rest = v@.skip(i as int);
    assert(trim_start(rest) == rest);
    let mut j: usize = n;
    while j > i && char_is_white_space(v[j - 1])
        invariant
            n == v@.len(),
            i <= j <= n,
            forall|k: int| j <= k < n ==> is_white_space(v@[k]),
        decreases j,
    {
        j = j - 1;
    }
    proof {
        lemma_trim_end_take(rest, j - i);
        assert(rest.take(j - i) =~= v@.subrange(i as int, j as int));
        let t = rest.take(j - i);
        assert(trim_end(t) == t);
    }
    slice_chars(v, i, j)
}

/// The text without leading and trailing white space, as `str::trim` gives
/// it.
pub fn trimmed(s: &str) -> (r: String)
    ensures
        r@ == trim(s@),
{
    let chars = chars_of(s);
    let t = trim_chars(&chars);
    string_from_chars(&t)
}

// ---------------------------------------------------------------------------
// Decimal numerals
// ---------------------------------------------------------------------------

/// The decimal digit for `d`, when `d < 10`.
pub open spec fn digit_char(d: nat) -> char {
    if d == 0 {
        '0'
    } else if d == 1 {
        '1'
    } else if d == 2 {
        '2'
    } else if d == 3 {
        '3'
    } else if d == 4 {
        '4'
    } else if d == 5 {
        '5'
    } else if d == 6 {
        '6'
    } else if d == 7 {
        '7'
    } else if d == 8 {
        '8'
    } else {
        '9'
    }
}

fn exec_digit_char(d: usize) -> (c: char)
    requires
        d < 10,
    ensures
        c == digit_char(d as nat),
{
    if d == 0 {
        '0'
    } else if d == 1 {
        '1'
    } else if d == 2 {
        '2'
    } else if d == 3 {
        '3'
    } else if d == 4 {
        '4'
    } else if d == 5 {
        '5'
    } else if d == 6 {
        '6'
    } else if d == 7 {
        '7'
    } else if d == 8 {
        '8'
    } else {
        '9'
    }
}

/// The decimal numeral of `n`, without leading zeros (`"0"` for zero), as
/// `to_string` writes an unsigned integer.
pub open spec fn decimal(n: nat) -> Seq<char>
    decreases n,
{
    if n < 10 {
        seq![digit_char(n)]
    } else {
        decimal(n / 10).push(digit_char(n % 10))
    }
}

/// A decimal numeral has at least one digit.
pub proof fn lemma_decimal_nonempty(n: nat)
    ensures
        decimal(n).len() >= 1,
    decreases n,
{
    if n >= 10 {
        lemma_decimal_nonempty(n / 10);
    }
}

/// The decimal numeral of `n`.
pub fn decimal_chars(n: usize) -> (r: Vec<char>)
    ensures
        r@ == decimal(n as nat),
{
    let mut suffix: Vec<char> = Vec::new();
    let mut m = n;
    while m >= 10
        invariant
            decimal(n as nat) == decimal(m as nat) + suffix@,
        decreases m,
    {
        let d = m % 10;
        let c = exec_digit_char(d);
        let ghost old_suffix = suffix@;
        suffix.insert(0, c);
        proof {
            assert(decimal(m as nat) == decimal((m / 10) as nat).push(digit_char((m % 10) as nat)));
            assert(suffix@ =~= seq![c] + old_suffix);
            assert(decimal((m / 10) as nat).push(c) + old_suffix =~= decimal((m / 10) as nat)
                + suffix@);
        }
        m = m / 10;
    }
    let mut r: Vec<char> = Vec::new();
    r.push(exec_digit_char(m));
    extend_chars(&mut r, &suffix);
    assert(r@ =~= decimal(n as nat));
    r
}

/// The decimal numeral of an integer, with a leading `'-'` when it is
/// negative, as `to_string` writes a signed integer.
pub open spec fn signed_decimal(n: int) -> Seq<char> {
    if n < 0 {
        seq!['-'] + decimal((-n) as nat)
    } else {
        decimal(n as nat)
    }
}

/// The decimal numeral of `n`.
pub fn i32_decimal_chars(n: i32) -> (r: Vec<char>)
    ensures
        r@ == signed_decimal(n as int),
{
    if n < 0 {
        let m: i64 = -(n as i64);
        let mut r: Vec<char> = Vec::new();
        r.push('-');
        let d = decimal_chars(m as usize);
        extend_chars(&mut r, &d);
        assert(r@ =~= signed_decimal(n as int));
        r
    } else {
        decimal_chars(n as usize)
    }
}

/// Whether `c` is one of the ASCII digits.
pub open spec fn is_digit(c: char) -> bool {
    '0' <= c <= '9'
}

/// The value of a run of decimal digits (zero for none).
pub open spec fn digits_value(s: Seq<char>) -> nat
    decreases s.len(),
{
    if s.len() == 0 {
        0
    } else {
        digits_value(s.drop_last()) * 10 + ((s.last() as u32 - '0' as u32) as nat)
    }
}

/// The text without one leading `'+'`.
pub open spec fn unsigned_digits(s: Seq<char>) -> Seq<char> {
    if s.len() > 0 && s[0] == '+' {
        s.drop_first()
    } else {
        s
    }
}

/// Every character is a decimal digit.
pub open spec fn all_digits(d: Seq<char>) -> bool {
    forall|i: int| 0 <= i < d.len() ==> is_digit(#[trigger] d[i])
}

/// What `usize::from_str` gives: an optional `'+'`, then one or more
/// decimal digits whose value fits in a `usize`; anything else is `None`.
pub open spec fn parse_usize_spec(s: Seq<char>) -> Option<nat> {
    let d = unsigned_digits(s);
    if d.len() > 0 && all_digits(d) && digits_value(d) <= usize::MAX {
        Some(digits_value(d))
    } else {
        None
    }
}

proof fn lemma_digits_value_mono(d: Seq<char>, k: int)
    requires
        0 <= k <= d.len(),
        all_digits(d),
    ensures
        digits_value(d.take(k)) <= digits_value(d),
    decreases d.len() - k,
{
    if k < d.len() {
        assert(d.drop_last().take(k) =~= d.take(k));
        lemma_digits_value_mono(d.drop_last(), k);
    } else {
        assert(d.take(k) =~= d);
    }
}

/// A decimal number, as `usize::from_str` reads it: `None` where it fails.
pub fn parse_usize(v: &Vec<char>) -> (r: Option<usize>)
    ensures
        match r {
            Some(n) => parse_usize_spec(v@) == Some(n as nat),
            None => parse_usize_spec(v@) is None,
        },
{
    let n = v.len();
    let mut i: usize = 0;
    if n > 0 && v[0] == '+' {
        i = 1;
    }
    let ghost d = unsigned_digits(v@);
    assert(d =~= v@.skip(i as int));
    if i >= n {
        return None;
    }
    let start = i;
    let mut value: usize = 0;
    while i < n
        invariant
            n == v@.len(),
            start <= i <= n,
            d =~= v@.skip(start as int),
            d == unsigned_digits(v@),
            forall|k: int| start <= k < i ==> is_digit(#[trigger] v@[k]),
            value == digits_value(v@.subrange(start as int, i as int)),
        decreases n - i,
    {
        let c = v[i];
        if !('0' <= c && c <= '9') {
            assert(d[i - start] == c);
            assert(!is_digit(d[i - start]));
            assert(parse_usize_spec(v@) is None);
            return None;
        }
        let dv = (c as u32 - '0' as u32) as usize;
        assert(v@.subrange(start as int, i + 1).drop_last() =~= v@.subrange(
            start as int,
            i as int,
        ));
        let m = value.checked_mul(10);
        if m.is_none() {
            proof {
                if all_digits(d) {
                    lemma_digits_value_mono(d, i + 1 - start);
                    assert(d.take(i + 1 - start) =~= v@.subrange(start as int, i + 1));
                    assert(digits_value(v@.subrange(start as int, i + 1)) == value * 10 + dv);
                }
                assert(parse_usize_spec(v@) is None);
            }
            return None;
        }
        let s = m.unwrap().checked_add(dv);
        if s.is_none() {
            proof {
                if all_digits(d) {
                    lemma_digits_value_mono(d, i + 1 - start);
                    assert(d.take(i + 1 - start) =~= v@.subrange(start as int, i + 1));
                    assert(digits_value(v@.subrange(start as int, i + 1)) == value * 10 + dv);
                }
                assert(parse_usize_spec(v@) is None);
            }
            return None;
        }
        value = s.unwrap();
        i = i + 1;
    }
    assert(v@.subrange(start as int, n as int) =~= d);
    Some(value)
}

// ---------------------------------------------------------------------------
// Lexicographic order
// ---------------------------------------------------------------------------

/// `a` comes before `b` in the order of `String`'s `Ord`: compared character
/// by character (UTF-8 byte order is code point order), a proper prefix
/// first.
pub open spec fn lex_lt(a: Seq<char>, b: Seq<char>) -> bool
    decreases a.len(),
{
    if a.len() == 0 {
        b.len() > 0
    } else if b.len() == 0 {
        false
    } else if a[0] != b[0] {
        a[0] < b[0]
    } else {
        lex_lt(a.drop_first(), b.drop_first())
    }
}

/// No text comes before itself, and of two texts that differ one comes
/// before the other and not the other way round.
pub proof fn lemma_lex_lt_total(a: Seq<char>, b: Seq<char>)
    ensures
        !lex_lt(a, a),
        lex_lt(a, b) ==> !lex_lt(b, a),
        a != b ==> lex_lt(a, b) || lex_lt(b, a),
    decreases a.len(),
{
    if a.len() > 0 {
        lemma_lex_lt_total(a.drop_first(), a.drop_first());
        if b.len() > 0 {
            lemma_lex_lt_total(a.drop_first(), b.drop_first());
            if a[0] == b[0] && a.drop_first() == b.drop_first() {
                assert forall|i: int| 0 <= i < a.len() implies a[i] == b[i] by {
                    if i > 0 {
                        assert(a[i] == a.drop_first()[i - 1]);
                        assert(b[i] == b.drop_first()[i - 1]);
                    }
                }
                assert(a =~= b);
            }
        }
    } else if b.len() == 0 {
        assert(a =~= b);
    }
}

/// The order is transitive.
pub proof fn lemma_lex_lt_transitive(a: Seq<char>, b: Seq<char>, c: Seq<char>)
    requires
        lex_lt(a, b),
        lex_lt(b, c),
    ensures
        lex_lt(a, c),
    decreases a.len(),
{
    if a.len() > 0 && b.len() > 0 && c.len() > 0 {
        if a[0] == b[0] && b[0] == c[0] {
            lemma_lex_lt_transitive(a.drop_first(), b.drop_first(), c.drop_first());
        }
    }
}

proof fn lemma_lex_lt_skip(a: Seq<char>, b: Seq<char>, i: int)
    requires
        0 <= i < a.len(),
        i < b.len(),
        a[i] == b[i],
    ensures
        lex_lt(a.skip(i), b.skip(i)) == lex_lt(a.skip(i + 1), b.skip(i + 1)),
{
    assert(a.skip(i).drop_first() =~= a.skip(i + 1));
    assert(b.skip(i).drop_first() =~= b.skip(i + 1));
}

/// Whether `a` comes before `b`.
pub fn lex_less(a: &Vec<char>, b: &Vec<char>) -> (r: bool)
    ensures
        r == lex_lt(a@, b@),
{
    let mut i: usize = 0;
    assert(a@.skip(0) =~= a@);
    assert(b@.skip(0) =~= b@);
    while i < a.len() && i < b.len()
        invariant
            i <= a@.len(),
            i <= b@.len(),
            lex_lt(a@, b@) == lex_lt(a@.skip(i as int), b@.skip(i as int)),
        decreases a@.len() - i,
    {
        if a[i] != b[i] {
            assert(a@.skip(i as int)[0] == a@[i as int]);
            assert(b@.skip(i as int)[0] == b@[i as int]);
            return a[i] < b[i];
        }
        proof {
            lemma_lex_lt_skip(a@, b@, i as int);
        }
        i = i + 1;
    }
    i == a.len() && i < b.len()
}

// ---------------------------------------------------------------------------
// Path components
// ---------------------------------------------------------------------------

/// The position of the last `c` in `s`, or -1 when there is none.
pub open spec fn rfind(s: Seq<char>, c: char) -> int
    decreases s.len(),
{
    if s.len() == 0 {
        -1
    } else if s.last() == c {
        s.len() - 1
    } else {
        rfind(s.drop_last(), c)
    }
}

pub proof fn lemma_rfind(s: Seq<char>, c: char)
    ensures
        -1 <= rfind(s, c) < s.len(),
        rfind(s, c) >= 0 ==> s[rfind(s, c)] == c,
        forall|k: int| rfind(s, c) < k < s.len() ==> s[k] != c,
    decreases s.len(),
{
    if s.len() > 0 && s.last() != c {
        lemma_rfind(s.drop_last(), c);
        assert forall|k: int| rfind(s, c) < k < s.len() implies s[k] != c by {
            if k < s.len() - 1 {
                assert(s[k] == s.drop_last()[k]);
            }
        }
    }
}

/// The last component of a Unix path, as `Path::file_name` gives it:
/// trailing separators and `.` components do not count, and a last
/// component `..`, or none at all, gives `None`.
pub open spec fn path_file_name(s: Seq<char>) -> Option<Seq<char>>
    decreases s.len(),
{
    let k = rfind(s, '/');
    let seg = s.skip(k + 1);
    if seg.len() == 0 || seg == "."@ {
        if k < 0 {
            None
        } else {
            proof {
                lemma_rfind(s, '/');
            }
            path_file_name(s.take(k))
        }
    } else if seg == ".."@ {
        None
    } else {
        Some(seg)
    }
}

/// The position of the last `c` among the first `end` characters of `v`.
fn rfind_char(v: &Vec<char>, c: char, end: usize) -> (r: Option<usize>)
    requires
        end <= v@.len(),
    ensures
        match r {
            Some(k) => rfind(v@.take(end as int), c) == k as int && k < end,
            None => rfind(v@.take(end as int), c) == -1,
        },
{
    let mut i = end;
    while i > 0 && v[i - 1] != c
        invariant
            i <= end <= v@.len(),
            rfind(v@.take(end as int), c) == rfind(v@.take(i as int), c),
        decreases i,
    {
        assert(v@.take(i as int).drop_last() =~= v@.take(i - 1));
        i = i - 1;
    }
    if i == 0 {
        assert(v@.take(0) =~= Seq::<char>::empty());
        None
    } else {
        Some(i - 1)
    }
}

/// The last component of the path in `v`.
pub fn file_name_of(v: &Vec<char>) -> (r: Option<Vec<char>>)
    ensures
        match r {
            Some(name) => path_file_name(v@) == Some(name@),
            None => path_file_name(v@) is None,
        },
{
    let mut end = v.len();
    assert(v@.take(end as int) =~= v@);
    loop
        invariant
            end <= v@.len(),
            path_file_name(v@) == path_file_name(v@.take(end as int)),
        decreases end,
    {
        proof {
            reveal_strlit(".");
            reveal_strlit("..");
        }
        let ghost t = v@.take(end as int);
        let k = rfind_char(v, '/', end);
        let start = match k {
            Some(k) => k + 1,
            None => 0,
        };
        proof {
            lemma_rfind(t, '/');
        }
        let seg = slice_chars(v, start, end);
        assert(seg@ =~= t.skip(rfind(t, '/') + 1));
        let is_dot = seg.len() == 1 && seg[0] == '.';
        let is_dot_dot = seg.len() == 2 && seg[0] == '.' && seg[1] == '.';
        assert(is_dot == (seg@ == "."@)) by {
            if seg@ == "."@ {
                assert(seg@[0] == '.');
            }
            if is_dot {
                assert(seg@ =~= "."@);
            }
        }
        assert(is_dot_dot == (seg@ == ".."@)) by {
            if seg@ == ".."@ {
                assert(seg@[0] == '.' && seg@[1] == '.');
            }
            if is_dot_dot {
                assert(seg@ =~= ".."@);
            }
        }
        if seg.len() == 0 || is_dot {
            match k {
                None => {
                    return None;
                },
                Some(k) => {
                    assert(t.take(k as int) =~= v@.take(k as int));
                    end = k;
                },
            }
        } else if is_dot_dot {
            return None;
        } else {
            return Some(seg);
        }
    }
}

} // verus!
