//! Character-level text handling shared by the line and CSV parsers:
//! Unicode whitespace, trimming, splitting, and the literal grammars of
//! `u8::from_str` and `f32::from_str`.
use vstd::prelude::*;

verus! {

/// Unicode `White_Space`, the property behind `char::is_whitespace`.
pub open spec fn is_ws(c: char) -> bool {
    let u = c as u32;
    ||| 0x9 <= u <= 0xd
    ||| u == 0x20
    ||| u == 0x85
    ||| u == 0xa0
    ||| u == 0x1680
    ||| 0x2000 <= u <= 0x200a
    ||| u == 0x2028
    ||| u == 0x2029
    ||| u == 0x202f
    ||| u == 0x205f
    ||| u == 0x3000
}

/// An ASCII decimal digit.
pub open spec fn is_digit(c: char) -> bool {
    '0' <= c && c <= '9'
}

/// The classes of characters that the scanners below group into runs.
pub enum CharClass {
    Whitespace,
    Word,
    Digit,
}

pub open spec fn in_class(c: char, k: CharClass) -> bool {
    match k {
        CharClass::Whitespace => is_ws(c),
        CharClass::Word => !is_ws(c),
        CharClass::Digit => is_digit(c),
    }
}

/// Length of the longest prefix of `s` made of characters of class `k`.
pub open spec fn span(s: Seq<char>, k: CharClass) -> nat
    decreases s.len(),
{
    if s.len() > 0 && in_class(s[0], k) {
        1 + span(s.skip(1), k)
    } else {
        0
    }
}

/// Length of the longest suffix of `s` made of characters of class `k`.
pub open spec fn rspan(s: Seq<char>, k: CharClass) -> nat
    decreases s.len(),
{
    if s.len() > 0 && in_class(s.last(), k) {
        1 + rspan(s.drop_last(), k)
    } else {
        0
    }
}

/// `s` without its leading whitespace.
pub open spec fn skip_ws(s: Seq<char>) -> Seq<char> {
    s.skip(span(s, CharClass::Whitespace) as int)
}

/// `s` without leading and trailing whitespace, as `str::trim` gives it.
pub open spec fn trim(s: Seq<char>) -> Seq<char> {
    let t = skip_ws(s);
    t.take(t.len() - rspan(t, CharClass::Whitespace))
}

/// The first whitespace-separated word of `s` (empty when there is none).
pub open spec fn first_word(s: Seq<char>) -> Seq<char> {
    let t = skip_ws(s);
    t.take(span(t, CharClass::Word) as int)
}

/// What follows the first word of `s`.
pub open spec fn after_first_word(s: Seq<char>) -> Seq<char> {
    let t = skip_ws(s);
    t.skip(span(t, CharClass::Word) as int)
}

/// The pieces of `s` between occurrences of `sep`, as `str::split` yields them.
pub open spec fn split_on(s: Seq<char>, sep: char) -> Seq<Seq<char>>
    decreases s.len(),
{
    if s.len() == 0 {
        seq![Seq::<char>::empty()]
    } else {
        let prev = split_on(s.drop_last(), sep);
        if s.last() == sep {
            prev.push(Seq::<char>::empty())
        } else {
            prev.update(prev.len() - 1, prev.last().push(s.last()))
        }
    }
}

/// The characters of each string.
pub open spec fn strings_view(v: Seq<String>) -> Seq<Seq<char>> {
    v.map_values(|s: String| s@)
}

/// Every character of `s` is whitespace, so `trim` leaves nothing.
pub open spec fn is_blank(s: Seq<char>) -> bool {
    forall|i: int| 0 <= i < s.len() ==> is_ws(#[trigger] s[i])
}

pub proof fn lemma_split_on_nonempty(s: Seq<char>, sep: char)
    ensures
        split_on(s, sep).len() >= 1,
    decreases s.len(),
{
    if s.len() > 0 {
        lemma_split_on_nonempty(s.drop_last(), sep);
    }
}

/// Splitting at a separator: the pieces of `a`, `sep`, `b` are those of
/// `a` followed by those of `b`.
pub proof fn lemma_split_on_join(a: Seq<char>, sep: char, b: Seq<char>)
    ensures
        split_on(a + seq![sep] + b, sep) == split_on(a, sep) + split_on(b, sep),
    decreases b.len(),
{
    let s = a + seq![sep] + b;
    if b.len() == 0 {
        assert(s.drop_last() =~= a);
        assert(split_on(a, sep).push(Seq::<char>::empty()) =~= split_on(a, sep) + split_on(b, sep));
    } else {
        let b1 = b.drop_last();
        assert(s.drop_last() =~= a + seq![sep] + b1);
        assert(s.last() == b.last());
        lemma_split_on_join(a, sep, b1);
        lemma_split_on_nonempty(b1, sep);
        let pa = split_on(a, sep);
        let pb = split_on(b1, sep);
        if b.last() == sep {
            assert((pa + pb).push(Seq::<char>::empty()) =~= pa + pb.push(Seq::<char>::empty()));
        } else {
            let prev = pa + pb;
            assert(prev.last() == pb.last());
            assert(prev.update(prev.len() - 1, prev.last().push(b.last())) =~= pa + pb.update(
                pb.len() - 1,
                pb.last().push(b.last()),
            ));
        }
    }
}

/// `n` is the span of class `k` at the start of `s` exactly when the first
/// `n` characters are in the class and the next one (if any) is not.
pub proof fn lemma_span_is(s: Seq<char>, k: CharClass, n: int)
    requires
        0 <= n <= s.len(),
        forall|i: int| 0 <= i < n ==> in_class(#[trigger] s[i], k),
        n == s.len() || !in_class(s[n], k),
    ensures
        span(s, k) == n,
    decreases n,
{
    if n > 0 {
        let t = s.skip(1);
        assert forall|i: int| 0 <= i < n - 1 implies in_class(#[trigger] t[i], k) by {
            assert(t[i] == s[i + 1]);
        }
        if n - 1 < t.len() {
            assert(t[n - 1] == s[n]);
        }
        lemma_span_is(t, k, n - 1);
    }
}

/// The characters counted by `span` are in the class, and the one after is not.
pub proof fn lemma_span_props(s: Seq<char>, k: CharClass)
    ensures
        span(s, k) <= s.len(),
        forall|i: int| 0 <= i < span(s, k) ==> in_class(#[trigger] s[i], k),
        span(s, k) < s.len() ==> !in_class(s[span(s, k) as int], k),
    decreases s.len(),
{
    if s.len() > 0 && in_class(s[0], k) {
        let t = s.skip(1);
        lemma_span_props(t, k);
        assert forall|i: int| 0 <= i < span(s, k) implies in_class(#[trigger] s[i], k) by {
            if i > 0 {
                assert(s[i] == t[i - 1]);
            }
        }
        if span(s, k) < s.len() {
            assert(s[span(s, k) as int] == t[span(t, k) as int]);
        }
    }
}

/// Mirror image of `lemma_span_is` for suffixes.
pub proof fn lemma_rspan_is(s: Seq<char>, k: CharClass, n: int)
    requires
        0 <= n <= s.len(),
        forall|i: int| s.len() - n <= i < s.len() ==> in_class(#[trigger] s[i], k),
        n == s.len() || !in_class(s[s.len() - 1 - n], k),
    ensures
        rspan(s, k) == n,
    decreases n,
{
    if n > 0 {
        let t = s.drop_last();
        assert(in_class(s[s.len() - 1], k));
        assert forall|i: int| t.len() - (n - 1) <= i < t.len() implies in_class(
            #[trigger] t[i],
            k,
        ) by {
            assert(t[i] == s[i]);
        }
        if n - 1 < t.len() {
            assert(t[t.len() - 1 - (n - 1)] == s[s.len() - 1 - n]);
        }
        lemma_rspan_is(t, k, n - 1);
    }
}

/// The characters counted by `rspan` are in the class.
pub proof fn lemma_rspan_props(s: Seq<char>, k: CharClass)
    ensures
        rspan(s, k) <= s.len(),
        forall|i: int| s.len() - rspan(s, k) <= i < s.len() ==> in_class(#[trigger] s[i], k),
    decreases s.len(),
{
    if s.len() > 0 && in_class(s.last(), k) {
        let t = s.drop_last();
        lemma_rspan_props(t, k);
        assert forall|i: int| s.len() - rspan(s, k) <= i < s.len() implies in_class(
            #[trigger] s[i],
            k,
        ) by {
            if i < s.len() - 1 {
                assert(s[i] == t[i]);
            }
        }
    }
}

/// A text is blank exactly when trimming it leaves nothing: a line with
/// any character that is not whitespace is not blank.
pub proof fn lemma_blank_iff_trims_to_nothing(s: Seq<char>)
    ensures
        is_blank(s) <==> trim(s).len() == 0,
{
    lemma_span_props(s, CharClass::Whitespace);
    let t = skip_ws(s);
    lemma_span_props(t, CharClass::Whitespace);
    lemma_rspan_props(t, CharClass::Whitespace);
    let n = span(s, CharClass::Whitespace);
    if is_blank(s) {
        if n < s.len() {
            assert(is_ws(s[n as int]));
        }
        assert(t.len() == 0);
    }
    if trim(s).len() == 0 {
        assert(rspan(t, CharClass::Whitespace) == t.len());
        if t.len() > 0 {
            assert(in_class(t[0], CharClass::Whitespace));
            assert(t[0] == s[n as int]);
        }
        assert forall|i: int| 0 <= i < s.len() implies is_ws(#[trigger] s[i]) by {
            assert(in_class(s[i], CharClass::Whitespace));
        }
    }
}

/// Decides `is_ws`.
pub fn is_whitespace(c: char) -> (r: bool)
    ensures
        r == is_ws(c),
{
    let u = c as u32;
    (0x9 <= u && u <= 0xd) || u == 0x20 || u == 0x85 || u == 0xa0 || u == 0x1680 || (0x2000 <= u
        && u <= 0x200a) || u == 0x2028 || u == 0x2029 || u == 0x202f || u == 0x205f || u == 0x3000
}

/// Decides `in_class`.
pub fn class_has(c: char, k: &CharClass) -> (r: bool)
    ensures
        r == in_class(c, *k),
{
    match k {
        CharClass::Whitespace => is_whitespace(c),
        CharClass::Word => !is_whitespace(c),
        CharClass::Digit => '0' <= c && c <= '9',
    }
}

/// The characters of a string slice, in order.
pub fn chars_of(s: &str) -> (r: Vec<char>)
    ensures
        r@ == s@,
{
    let mut out: Vec<char> = Vec::new();
    for c in it: s.chars()
        invariant
            it.seq() == s@,
            out@ == it.seq().take(it.index()),
    {
        out.push(c);
    }
    out
}

/// `String::push`: appends one character.
#[verifier::external_body]
pub(crate) fn push_char(s: &mut String, c: char)
    ensures
        final(s)@ == old(s)@.push(c),
{
    s.push(c);
}

/// A `String` holding the characters `cs[from..to]`.
pub fn string_of(cs: &Vec<char>, from: usize, to: usize) -> (r: String)
    requires
        from <= to <= cs@.len(),
    ensures
        r@ == cs@.subrange(from as int, to as int),
{
    let mut out = String::new();
    let mut i = from;
    while i < to
        invariant
            from <= i <= to <= cs@.len(),
            out@ == cs@.subrange(from as int, i as int),
        decreases to - i,
    {
        push_char(&mut out, cs[i]);
        i = i + 1;
    }
    out
}

/// A `String` holding exactly the characters `cs`.
pub fn text_of(cs: &Vec<char>) -> (r: String)
    ensures
        r@ == cs@,
{
    let r = string_of(cs, 0, cs.len());
    assert(cs@.subrange(0, cs@.len() as int) =~= cs@);
    r
}

/// The characters `cs[from..to]`.
pub fn sub_chars(cs: &Vec<char>, from: usize, to: usize) -> (r: Vec<char>)
    requires
        from <= to <= cs@.len(),
    ensures
        r@ == cs@.subrange(from as int, to as int),
{
    let mut out: Vec<char> = Vec::new();
    let mut i = from;
    while i < to
        invariant
            from <= i <= to <= cs@.len(),
            out@ == cs@.subrange(from as int, i as int),
        decreases to - i,
    {
        out.push(cs[i]);
        i = i + 1;
    }
    out
}

/// End of the run of class `k` that starts at `start`.
pub fn span_end(cs: &Vec<char>, start: usize, k: &CharClass) -> (end: usize)
    requires
        start <= cs@.len(),
    ensures
        end == start + span(cs@.skip(start as int), *k),
        end <= cs@.len(),
{
    let mut i = start;
    while i < cs.len() && class_has(cs[i], k)
        invariant
            start <= i <= cs@.len(),
            forall|j: int| start <= j < i ==> in_class(#[trigger] cs@[j], *k),
        decreases cs@.len() - i,
    {
        i = i + 1;
    }
    proof {
        let t = cs@.skip(start as int);
        assert forall|j: int| 0 <= j < i - start implies in_class(#[trigger] t[j], *k) by {
            assert(t[j] == cs@[start + j]);
        }
        if i - start < t.len() {
            assert(t[i - start] == cs@[i as int]);
        }
        lemma_span_is(t, *k, i - start);
    }
    i
}

/// Start of the run of whitespace that ends at `end`, no earlier than `start`.
fn ws_rspan_start(cs: &Vec<char>, start: usize, end: usize) -> (r: usize)
    requires
        start <= end <= cs@.len(),
    ensures
        start <= r <= end,
        end - r == rspan(cs@.subrange(start as int, end as int), CharClass::Whitespace),
{
    let mut j = end;
    while j > start && is_whitespace(cs[j - 1])
        invariant
            start <= j <= end <= cs@.len(),
            forall|i: int| j <= i < end ==> is_ws(#[trigger] cs@[i]),
        decreases j - start,
    {
        j = j - 1;
    }
    proof {
        let t = cs@.subrange(start as int, end as int);
        let n = end - j;
        assert forall|i: int| t.len() - n <= i < t.len() implies in_class(
            #[trigger] t[i],
            CharClass::Whitespace,
        ) by {
            assert(t[i] == cs@[start + i]);
        }
        if n < t.len() {
            assert(t[t.len() - 1 - n] == cs@[j - 1]);
        }
        lemma_rspan_is(t, CharClass::Whitespace, n as int);
    }
    j
}

/// `str::trim` over a character vector.
pub fn trim_chars(cs: &Vec<char>) -> (r: Vec<char>)
    ensures
        r@ == trim(cs@),
{
    let a = span_end(cs, 0, &CharClass::Whitespace);
    let b = ws_rspan_start(cs, a, cs.len());
    proof {
        assert(cs@.skip(0) == cs@);
        assert(cs@.subrange(a as int, cs@.len() as int) == skip_ws(cs@));
    }
    let r = sub_chars(cs, a, b);
    proof {
        let t = skip_ws(cs@);
        assert(r@ == t.take(t.len() - rspan(t, CharClass::Whitespace)));
    }
    r
}

/// `str::split(sep)` over a character vector, each piece trimmed.
pub fn split_trimmed(cs: &Vec<char>, sep: char) -> (r: Vec<Vec<char>>)
    ensures
        r@.len() == split_on(cs@, sep).len(),
        forall|i: int| 0 <= i < r@.len() ==> (#[trigger] r@[i])@ == trim(split_on(cs@, sep)[i]),
{
    let mut pieces: Vec<Vec<char>> = Vec::new();
    let mut cur: Vec<char> = Vec::new();
    let mut i: usize = 0;
    while i < cs.len()
        invariant
            0 <= i <= cs@.len(),
            split_on(cs@.take(i as int), sep).len() == pieces@.len() + 1,
            forall|j: int|
                0 <= j < pieces@.len() ==> (#[trigger] pieces@[j])@ == trim(
                    split_on(cs@.take(i as int), sep)[j],
                ),
            split_on(cs@.take(i as int), sep).last() == cur@,
        decreases cs@.len() - i,
    {
        let c = cs[i];
        proof {
            let s1 = cs@.take(i + 1);
            assert(s1.drop_last() == cs@.take(i as int));
            assert(s1.last() == c);
        }
        if c == sep {
            let t = trim_chars(&cur);
            pieces.push(t);
            cur = Vec::new();
        } else {
            cur.push(c);
        }
        i = i + 1;
    }
    let t = trim_chars(&cur);
    pieces.push(t);
    proof {
        assert(cs@.take(cs@.len() as int) == cs@);
    }
    pieces
}


/// `s` without one leading sign character.
pub open spec fn unsigned_part(s: Seq<char>) -> Seq<char> {
    if s.len() > 0 && (s[0] == '+' || s[0] == '-') {
        s.skip(1)
    } else {
        s
    }
}

/// `a` is the lower-case ASCII letter or symbol `b`, in either case.
pub open spec fn ci_char_eq(a: char, b: char) -> bool {
    a == b || ('a' <= b && b <= 'z' && a as u32 == b as u32 - 32)
}

/// `s` spells `word` (given in lower case), ignoring ASCII case.
pub open spec fn ci_word(s: Seq<char>, word: Seq<char>) -> bool {
    s.len() == word.len() && forall|i: int| 0 <= i < s.len() ==> ci_char_eq(#[trigger] s[i], word[i])
}

/// Nothing but digits, and at least one.
pub open spec fn all_digits(s: Seq<char>) -> bool {
    s.len() > 0 && span(s, CharClass::Digit) == s.len()
}

/// `Exp ::= 'e' Sign? Digit+` (case-insensitive).
pub open spec fn is_exponent(e: Seq<char>) -> bool {
    e.len() > 0 && (e[0] == 'e' || e[0] == 'E') && all_digits(unsigned_part(e.skip(1)))
}

/// `Number ::= ( Digit+ | Digit+ '.' Digit* | Digit* '.' Digit+ ) Exp?`
pub open spec fn is_decimal(n: Seq<char>) -> bool {
    let d1 = span(n, CharClass::Digit);
    let after_int = n.skip(d1 as int);
    let has_dot = after_int.len() > 0 && after_int[0] == '.';
    let d2: nat = if has_dot {
        span(after_int.skip(1), CharClass::Digit)
    } else {
        0
    };
    let rest = if has_dot {
        after_int.skip(1 + d2 as int)
    } else {
        after_int
    };
    d1 + d2 > 0 && (rest.len() == 0 || is_exponent(rest))
}

/// The strings that `f32::from_str` accepts, by the grammar in its
/// documentation: `Sign? ( 'inf' | 'infinity' | 'nan' | Number )`, with the
/// words and the exponent marker matched without regard to case.
pub open spec fn is_float_literal(s: Seq<char>) -> bool {
    let u = unsigned_part(s);
    &&& u.len() > 0
    &&& {
        ||| ci_word(u, seq!['i', 'n', 'f'])
        ||| ci_word(u, seq!['i', 'n', 'f', 'i', 'n', 'i', 't', 'y'])
        ||| ci_word(u, seq!['n', 'a', 'n'])
        ||| is_decimal(u)
    }
}

/// Value of a run of decimal digits.
pub open spec fn digits_value(d: Seq<char>) -> nat
    decreases d.len(),
{
    if d.len() == 0 {
        0
    } else {
        (digits_value(d.drop_last()) * 10 + (d.last() as int - 48)) as nat
    }
}

/// What `u8::from_str` returns: an optional `+`, then decimal digits whose
/// value fits in a byte.
pub open spec fn u8_literal(s: Seq<char>) -> Option<u8> {
    let d = if s.len() > 0 && s[0] == '+' {
        s.skip(1)
    } else {
        s
    };
    if all_digits(d) && digits_value(d) <= 255 {
        Some(digits_value(d) as u8)
    } else {
        None
    }
}

fn ci_char_matches(a: char, b: char) -> (r: bool)
    ensures
        r == ci_char_eq(a, b),
{
    a == b || ('a' <= b && b <= 'z' && (a as u32) + 32 == (b as u32))
}

/// Decides `ci_word(cs[from..], word)`.
fn ci_word_at(cs: &Vec<char>, from: usize, word: &Vec<char>) -> (r: bool)
    requires
        from <= cs@.len(),
    ensures
        r == ci_word(cs@.skip(from as int), word@),
{
    let ghost s = cs@.skip(from as int);
    let n = cs.len();
    if n - from != word.len() {
        return false;
    }
    let mut i: usize = 0;
    while i < word.len()
        invariant
            n == cs@.len(),
            s == cs@.skip(from as int),
            from <= cs@.len(),
            from + word@.len() == cs@.len(),
            0 <= i <= word@.len(),
            forall|j: int| 0 <= j < i ==> ci_char_eq(#[trigger] s[j], word@[j]),
        decreases word@.len() - i,
    {
        assert(s[i as int] == cs@[from + i]);
        if !ci_char_matches(cs[from + i], word[i]) {
            return false;
        }
        i = i + 1;
    }
    true
}

/// Decides `all_digits(cs[from..])`.
fn all_digits_from(cs: &Vec<char>, from: usize) -> (r: bool)
    requires
        from <= cs@.len(),
    ensures
        r == all_digits(cs@.skip(from as int)),
{
    let e = span_end(cs, from, &CharClass::Digit);
    from < cs.len() && e == cs.len()
}

/// Decides `is_exponent(cs[from..])`.
fn exponent_from(cs: &Vec<char>, from: usize) -> (r: bool)
    requires
        from <= cs@.len(),
    ensures
        r == is_exponent(cs@.skip(from as int)),
{
    let ghost e = cs@.skip(from as int);
    if from >= cs.len() || !(cs[from] == 'e' || cs[from] == 'E') {
        return false;
    }
    assert(e[0] == cs@[from as int]);
    let mut k = from + 1;
    assert(e.skip(1) == cs@.skip(k as int));
    if k < cs.len() && (cs[k] == '+' || cs[k] == '-') {
        assert(cs@.skip(k as int).skip(1) == cs@.skip(k + 1));
        k = k + 1;
    }
    all_digits_from(cs, k)
}

/// Decides `is_float_literal`: whether `f32::from_str` accepts `cs`.
pub fn float_literal_ok(cs: &Vec<char>) -> (r: bool)
    ensures
        r == is_float_literal(cs@),
{
    let mut start: usize = 0;
    if cs.len() > 0 && (cs[0] == '+' || cs[0] == '-') {
        start = 1;
    }
    let ghost u = unsigned_part(cs@);
    assert(u == cs@.skip(start as int));
    if start >= cs.len() {
        return false;
    }
    let inf = vec!['i', 'n', 'f'];
    let infinity = vec!['i', 'n', 'f', 'i', 'n', 'i', 't', 'y'];
    let nan = vec!['n', 'a', 'n'];
    assert(inf@ == seq!['i', 'n', 'f']);
    assert(infinity@ == seq!['i', 'n', 'f', 'i', 'n', 'i', 't', 'y']);
    assert(nan@ == seq!['n', 'a', 'n']);
    if ci_word_at(cs, start, &inf) || ci_word_at(cs, start, &infinity) || ci_word_at(
        cs,
        start,
        &nan,
    ) {
        return true;
    }
    let e1 = span_end(cs, start, &CharClass::Digit);
    let ghost d1 = span(u, CharClass::Digit);
    assert(u.skip(d1 as int) == cs@.skip(e1 as int));
    let mut rest_start = e1;
    let mut frac: usize = 0;
    if e1 < cs.len() && cs[e1] == '.' {
        assert(cs@.skip(e1 as int)[0] == cs@[e1 as int]);
        assert(cs@.skip(e1 as int).skip(1) == cs@.skip(e1 + 1));
        let e2 = span_end(cs, e1 + 1, &CharClass::Digit);
        frac = e2 - (e1 + 1);
        rest_start = e2;
        assert(cs@.skip(e1 as int).skip(1 + frac) == cs@.skip(e2 as int));
    } else {
        if e1 < cs.len() {
            assert(cs@.skip(e1 as int)[0] == cs@[e1 as int]);
        }
    }
    if e1 - start + frac == 0 {
        return false;
    }
    rest_start == cs.len() || exponent_from(cs, rest_start)
}

proof fn lemma_digits_value_grows(d: Seq<char>, i: int)
    requires
        0 <= i <= d.len(),
        span(d, CharClass::Digit) == d.len(),
    ensures
        digits_value(d.take(i)) <= digits_value(d),
    decreases d.len() - i,
{
    lemma_span_props(d, CharClass::Digit);
    if i < d.len() {
        let t = d.take(i + 1);
        assert(t.drop_last() == d.take(i));
        assert(is_digit(d[i]));
        if i + 1 < d.len() {
            lemma_digits_value_grows(d, i + 1);
        } else {
            assert(t == d);
        }
    } else {
        assert(d.take(i) == d);
    }
}

/// `u8::from_str` over a character vector.
pub fn parse_u8_chars(cs: &Vec<char>) -> (r: Option<u8>)
    ensures
        r == u8_literal(cs@),
{
    let mut start: usize = 0;
    if cs.len() > 0 && cs[0] == '+' {
        start = 1;
    }
    let ghost d = cs@.skip(start as int);
    assert(d == if cs@.len() > 0 && cs@[0] == '+' { cs@.skip(1) } else { cs@ });
    let e = span_end(cs, start, &CharClass::Digit);
    if start >= cs.len() || e != cs.len() {
        return None;
    }
    proof {
        lemma_span_props(d, CharClass::Digit);
    }
    let mut acc: u32 = 0;
    let mut i = start;
    while i < cs.len()
        invariant
            d == cs@.skip(start as int),
            d == (if cs@.len() > 0 && cs@[0] == '+' { cs@.skip(1) } else { cs@ }),
            span(d, CharClass::Digit) == d.len(),
            forall|j: int| 0 <= j < d.len() ==> is_digit(#[trigger] d[j]),
            start <= i <= cs@.len(),
            acc <= 255,
            acc == digits_value(d.take(i - start)),
        decreases cs@.len() - i,
    {
        let c = cs[i];
        assert(d[i - start] == c);
        assert(is_digit(c));
        let digit = (c as u32) - ('0' as u32);
        proof {
            let t = d.take(i - start + 1);
            assert(t.drop_last() == d.take(i - start));
            assert(t.last() == c);
        }
        let next = acc * 10 + digit;
        proof {
            let t = d.take(i - start + 1);
            assert(digits_value(t) == digits_value(t.drop_last()) * 10 + (t.last() as int - 48));
            assert(digits_value(t) == next);
        }
        if next > 255 {
            proof {
                lemma_digits_value_grows(d, i - start + 1);
            }
            return None;
        }
        acc = next;
        i = i + 1;
    }
    assert(d.take(d.len() as int) == d);
    Some(acc as u8)
}

/// Whether two character vectors are equal.
pub fn same_chars(a: &Vec<char>, b: &Vec<char>) -> (r: bool)
    ensures
        r == (a@ == b@),
{
    if a.len() != b.len() {
        return false;
    }
    let mut i: usize = 0;
    while i < a.len()
        invariant
            a@.len() == b@.len(),
            0 <= i <= a@.len(),
            forall|j: int| 0 <= j < i ==> a@[j] == b@[j],
        decreases a@.len() - i,
    {
        if a[i] != b[i] {
            return false;
        }
        i = i + 1;
    }
    assert(a@ =~= b@);
    true
}

/// Whether two string slices hold the same characters.
pub fn text_eq(a: &str, b: &str) -> (r: bool)
    ensures
        r == (a@ == b@),
{
    let x = chars_of(a);
    let y = chars_of(b);
    same_chars(&x, &y)
}

} // verus!
