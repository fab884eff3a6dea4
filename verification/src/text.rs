//! Text helpers: character sequences, code-point order, substring search,
//! decimal rendering and string building.
use vstd::prelude::*;
use vstd::string::*;

verus! {

/// What `str::to_lowercase` gives for a string: lowercase mapping by the
/// Unicode `Lowercase` property, which may change the number of characters.
pub uninterp spec fn lowercase_of(s: Seq<char>) -> Seq<char>;

/// Calls `str::to_lowercase`; the result is named by `lowercase_of`.
#[verifier::external_body]
pub(crate) fn to_lower(s: &str) -> (r: String)
    ensures
        r@ == lowercase_of(s@),
{
    s.to_lowercase()
}

/// Calls `String::push`, which appends one character at the end.
#[verifier::external_body]
pub(crate) fn push_char(s: &mut String, c: char)
    ensures
        final(s)@ == old(s)@.push(c),
{
    s.push(c)
}

/// Calls `String::pop`, which removes and returns the last character, or
/// returns `None` and leaves an empty string as it is.
#[verifier::external_body]
pub(crate) fn pop_char(s: &mut String) -> (r: Option<char>)
    ensures
        old(s)@.len() == 0 ==> r is None && final(s)@ == old(s)@,
        old(s)@.len() > 0 ==> r == Some(old(s)@.last()) && final(s)@ == old(s)@.drop_last(),
{
    s.pop()
}

/// The characters of a string, in order.
pub fn chars_of(s: &str) -> (r: Vec<char>)
    ensures
        r@ == s@,
{
    let mut out: Vec<char> = Vec::new();
    for c in it: s.chars()
        invariant
            out@ == it.seq().take(it.index() as int),
            it.seq() == s@,
    {
        out.push(c);
    }
    out
}

/// A copy of a string with the same characters.
pub fn copy_string(s: &String) -> (r: String)
    ensures
        r@ == s@,
{
    s.clone()
}

/// `a` comes strictly before `b` in lexicographic order of code points: at
/// the first position where they differ the character of `a` is smaller, or
/// `a` is a proper prefix of `b`.
pub open spec fn seq_less(a: Seq<char>, b: Seq<char>) -> bool
    decreases a.len(),
{
    if b.len() == 0 {
        false
    } else if a.len() == 0 {
        true
    } else if a[0] != b[0] {
        a[0] < b[0]
    } else {
        seq_less(a.drop_first(), b.drop_first())
    }
}

/// No sequence comes before itself.
pub proof fn lemma_seq_less_irreflexive(a: Seq<char>)
    ensures
        !seq_less(a, a),
    decreases a.len(),
{
    if a.len() > 0 {
        lemma_seq_less_irreflexive(a.drop_first());
    }
}

/// Of two sequences, exactly one comes first, or they are equal.
pub proof fn lemma_seq_less_trichotomy(a: Seq<char>, b: Seq<char>)
    ensures
        a == b || seq_less(a, b) || seq_less(b, a),
        !(seq_less(a, b) && seq_less(b, a)),
    decreases a.len(),
{
    if a.len() == 0 || b.len() == 0 {
        if a.len() == 0 && b.len() == 0 {
            assert(a =~= b);
        }
    } else if a[0] == b[0] {
        lemma_seq_less_trichotomy(a.drop_first(), b.drop_first());
        if a.drop_first() == b.drop_first() {
            assert(a =~= b.drop_first().insert(0, b[0]));
            assert(b =~= b.drop_first().insert(0, b[0]));
        }
    }
}

/// Lexicographic order is transitive.
pub proof fn lemma_seq_less_transitive(a: Seq<char>, b: Seq<char>, c: Seq<char>)
    requires
        seq_less(a, b),
        seq_less(b, c),
    ensures
        seq_less(a, c),
    decreases a.len(),
{
    if a.len() > 0 && b.len() > 0 && c.len() > 0 && a[0] == b[0] && b[0] == c[0] {
        lemma_seq_less_transitive(a.drop_first(), b.drop_first(), c.drop_first());
    }
}

proof fn lemma_seq_less_skip(a: Seq<char>, b: Seq<char>, i: int)
    requires
        0 <= i <= a.len(),
        i <= b.len(),
        a.take(i) == b.take(i),
    ensures
        seq_less(a, b) == seq_less(a.skip(i), b.skip(i)),
    decreases i,
{
    if i > 0 {
        assert(a[0] == a.take(i)[0]);
        assert(b[0] == b.take(i)[0]);
        assert(a.drop_first().take(i - 1) =~= a.take(i).drop_first());
        assert(b.drop_first().take(i - 1) =~= b.take(i).drop_first());
        lemma_seq_less_skip(a.drop_first(), b.drop_first(), i - 1);
        assert(a.drop_first().skip(i - 1) =~= a.skip(i));
        assert(b.drop_first().skip(i - 1) =~= b.skip(i));
    } else {
        assert(a.skip(0) =~= a);
        assert(b.skip(0) =~= b);
    }
}

/// Whether `a` comes strictly before `b` in code-point order.
pub fn chars_less(a: &Vec<char>, b: &Vec<char>) -> (r: bool)
    ensures
        r == seq_less(a@, b@),
{
    let mut i: usize = 0;
    while i < a.len() && i < b.len()
        invariant
            i <= a.len(),
            i <= b.len(),
            a@.take(i as int) == b@.take(i as int),
        decreases a.len() - i,
    {
        if a[i] != b[i] {
            proof {
                lemma_seq_less_skip(a@, b@, i as int);
                assert(a@.skip(i as int)[0] == a@[i as int]);
                assert(b@.skip(i as int)[0] == b@[i as int]);
            }
            return a[i] < b[i];
        }
        assert(a@.take(i + 1) =~= a@.take(i as int).push(a@[i as int]));
        assert(b@.take(i + 1) =~= b@.take(i as int).push(b@[i as int]));
        i = i + 1;
    }
    proof {
        lemma_seq_less_skip(a@, b@, i as int);
    }
    i < b.len()
}

/// `needle` occurs in `hay` as a run of consecutive characters.
pub open spec fn seq_contains(hay: Seq<char>, needle: Seq<char>) -> bool {
    exists|i: int|
        0 <= i && i + needle.len() <= hay.len() && #[trigger] hay.subrange(i, i + needle.len())
            == needle
}

fn matches_at(hay: &Vec<char>, needle: &Vec<char>, start: usize) -> (r: bool)
    requires
        start + needle.len() <= hay.len(),
    ensures
        r == (hay@.subrange(start as int, start + needle.len()) == needle@),
{
    let mut j: usize = 0;
    while j < needle.len()
        invariant
            start + needle.len() <= hay.len(),
            j <= needle.len(),
            forall|k: int| 0 <= k < j ==> hay@[start + k] == needle@[k],
        decreases needle.len() - j,
    {
        if hay[start + j] != needle[j] {
            assert(hay@.subrange(start as int, start + needle.len())[j as int] != needle@[j as int]);
            return false;
        }
        j = j + 1;
    }
    assert(hay@.subrange(start as int, start + needle.len()) =~= needle@);
    true
}

/// Whether `needle` occurs in `hay`.
pub fn chars_contain(hay: &Vec<char>, needle: &Vec<char>) -> (r: bool)
    ensures
        r == seq_contains(hay@, needle@),
{
    if needle.len() > hay.len() {
        return false;
    }
    let last: usize = hay.len() - needle.len();
    let mut i: usize = 0;
    loop
        invariant
            last + needle.len() == hay.len(),
            i <= last,
            forall|k: int|
                0 <= k < i ==> #[trigger] hay@.subrange(k, k + needle.len()) != needle@,
        ensures
            forall|k: int|
                0 <= k <= last ==> #[trigger] hay@.subrange(k, k + needle.len()) != needle@,
        decreases last - i,
    {
        if matches_at(hay, needle, i) {
            return true;
        }
        if i == last {
            break;
        }
        i = i + 1;
    }
    assert forall|k: int|
        0 <= k && k + needle.len() <= hay.len() implies #[trigger] hay@.subrange(
        k,
        k + needle.len(),
    ) != needle@ by {}
    false
}

/// Whether `needle` occurs in `hay`, for strings.
pub fn str_contains(hay: &str, needle: &str) -> (r: bool)
    ensures
        r == seq_contains(hay@, needle@),
{
    let h = chars_of(hay);
    let n = chars_of(needle);
    chars_contain(&h, &n)
}

/// The character of a decimal digit.
pub open spec fn digit_char(d: nat) -> char {
    if d == 0 {
        '0'
    } else if d == 1 {
        '1'
    } else if d == 2 {
        '2'
    } else if d == 3 {
        '3'
    } else if d == 4 {
        '4'
    } else if d == 5 {
        '5'
    } else if d == 6 {
        '6'
    } else if d == 7 {
        '7'
    } else if d == 8 {
        '8'
    } else {
        '9'
    }
}

/// The decimal digits of `n`, most significant first, with no leading zero.
pub open spec fn decimal(n: nat) -> Seq<char>
    decreases n,
{
    if n < 10 {
        seq![digit_char(n)]
    } else {
        decimal(n / 10).push(digit_char(n % 10))
    }
}

fn digit(d: u128) -> (c: char)
    requires
        d < 10,
    ensures
        c == digit_char(d as nat),
{
    if d == 0 {
        '0'
    } else if d == 1 {
        '1'
    } else if d == 2 {
        '2'
    } else if d == 3 {
        '3'
    } else if d == 4 {
        '4'
    } else if d == 5 {
        '5'
    } else if d == 6 {
        '6'
    } else if d == 7 {
        '7'
    } else if d == 8 {
        '8'
    } else {
        '9'
    }
}

/// Appends the decimal digits of `n`.
pub fn push_decimal(s: &mut String, n: u128)
    ensures
        final(s)@ == old(s)@ + decimal(n as nat),
    decreases n,
{
    if n < 10 {
        push_char(s, digit(n));
        assert(decimal(n as nat) =~= seq![digit_char(n as nat)]);
    } else {
        push_decimal(s, n / 10);
        push_char(s, digit(n % 10));
    }
}

/// Appends the characters of `t`.
pub fn push_text(s: &mut String, t: &str)
    ensures
        final(s)@ == old(s)@ + t@,
{
    s.append(t);
}

/// A new string that holds the characters of `t`.
pub fn text(t: &str) -> (r: String)
    ensures
        r@ == t@,
{
    String::from_str(t)
}

/// Whether two strings have the same characters.
pub fn str_eq(a: &str, b: &str) -> (r: bool)
    ensures
        r == (a@ == b@),
{
    let x = chars_of(a);
    let y = chars_of(b);
    if x.len() != y.len() {
        return false;
    }
    let mut i: usize = 0;
    while i < x.len()
        invariant
            x.len() == y.len(),
            x@ == a@,
            y@ == b@,
            i <= x.len(),
            forall|k: int| 0 <= k < i ==> x@[k] == y@[k],
        decreases x.len() - i,
    {
        if x[i] != y[i] {
            assert(x@[i as int] != y@[i as int]);
            return false;
        }
        i = i + 1;
    }
    assert(x@ =~= y@);
    true
}

/// The pieces of `s` between the separators, as `str::split` gives them:
/// at least one piece, empty pieces included.
pub open spec fn split_on(s: Seq<char>, sep: char) -> Seq<Seq<char>>
    decreases s.len(),
{
    if s.len() == 0 {
        seq![Seq::empty()]
    } else {
        let r = split_on(s.drop_last(), sep);
        if s.last() == sep {
            r.push(Seq::empty())
        } else {
            r.update(r.len() - 1, r.last().push(s.last()))
        }
    }
}

/// There is always at least one piece.
pub proof fn lemma_split_on_len(s: Seq<char>, sep: char)
    ensures
        split_on(s, sep).len() >= 1,
    decreases s.len(),
{
    if s.len() > 0 {
        lemma_split_on_len(s.drop_last(), sep);
    }
}

/// The first piece of a split is the start of the text, and the whole text
/// when there is no separator in it.
pub proof fn lemma_split_first(t: Seq<char>, sep: char)
    ensures
        split_on(t, sep).len() >= 1,
        split_on(t, sep)[0].len() <= t.len(),
        t.take(split_on(t, sep)[0].len() as int) == split_on(t, sep)[0],
        split_on(t, sep).len() == 1 ==> split_on(t, sep)[0] == t,
    decreases t.len(),
{
    if t.len() == 0 {
        assert(t.take(0) =~= Seq::<char>::empty());
    } else {
        let d = t.drop_last();
        lemma_split_first(d, sep);
        let r = split_on(d, sep);
        if t.last() == sep {
            assert(split_on(t, sep)[0] == r[0]);
            assert(t.take(r[0].len() as int) =~= d.take(r[0].len() as int));
        } else if r.len() == 1 {
            assert(split_on(t, sep)[0] == r[0].push(t.last()));
            assert(d.push(t.last()) =~= t);
            assert(t.take(t.len() as int) =~= t);
        } else {
            assert(split_on(t, sep)[0] == r[0]);
            assert(t.take(r[0].len() as int) =~= d.take(r[0].len() as int));
        }
    }
}

/// A text with no separator is one piece.
pub proof fn lemma_split_none(a: Seq<char>, sep: char)
    requires
        !a.contains(sep),
    ensures
        split_on(a, sep) == seq![a],
    decreases a.len(),
{
    if a.len() > 0 {
        let d = a.drop_last();
        assert(!d.contains(sep)) by {
            if d.contains(sep) {
                let k = choose|k: int| 0 <= k < d.len() && d[k] == sep;
                assert(a[k] == sep);
            }
        }
        lemma_split_none(d, sep);
        assert(a[a.len() - 1] != sep);
        assert(d.push(a.last()) =~= a);
    } else {
        assert(a =~= Seq::<char>::empty());
    }
}

/// Splitting at a separator between two texts gives the pieces of the
/// first, then those of the second.
pub proof fn lemma_split_concat(a: Seq<char>, b: Seq<char>, sep: char)
    ensures
        split_on(a + seq![sep] + b, sep) == split_on(a, sep) + split_on(b, sep),
    decreases b.len(),
{
    let t = a + seq![sep] + b;
    if b.len() == 0 {
        assert(t =~= a.push(sep));
        assert(t.drop_last() =~= a);
        assert(split_on(b, sep) =~= seq![Seq::<char>::empty()]);
        assert(split_on(a, sep).push(Seq::empty()) =~= split_on(a, sep) + split_on(b, sep));
    } else {
        let d = b.drop_last();
        lemma_split_concat(a, d, sep);
        lemma_split_on_len(d, sep);
        lemma_split_on_len(a, sep);
        assert(t.drop_last() =~= a + seq![sep] + d);
        assert(t.last() == b.last());
        let ra = split_on(a, sep);
        let rd = split_on(d, sep);
        if b.last() == sep {
            assert((ra + rd).push(Seq::empty()) =~= ra + rd.push(Seq::empty()));
        } else {
            let r = ra + rd;
            assert(r.last() == rd.last());
            assert(r.update(r.len() - 1, r.last().push(b.last())) =~= ra + rd.update(
                rd.len() - 1,
                rd.last().push(b.last()),
            ));
        }
    }
}

/// The pieces of `s` between the separators `sep`.
pub fn split_text(s: &str, sep: char) -> (r: Vec<String>)
    ensures
        r@.map_values(|x: String| x@) == split_on(s@, sep),
{
    let cs = chars_of(s);
    let mut out: Vec<String> = Vec::new();
    let mut cur = String::new();
    let mut i: usize = 0;
    while i < cs.len()
        invariant
            i <= cs.len(),
            cs@ == s@,
            out@.map_values(|x: String| x@).push(cur@) == split_on(s@.take(i as int), sep),
        decreases cs.len() - i,
    {
        let c = cs[i];
        let ghost before = out@.map_values(|x: String| x@);
        let ghost cur0 = cur@;
        proof {
            assert(s@.take(i + 1).drop_last() =~= s@.take(i as int));
            assert(s@.take(i + 1).last() == c);
        }
        if c == sep {
            out.push(cur);
            cur = String::new();
            assert(out@.map_values(|x: String| x@) =~= before.push(cur0));
            assert(out@.map_values(|x: String| x@).push(cur@) =~= before.push(cur0).push(Seq::empty()));
        } else {
            push_char(&mut cur, c);
            assert(before.push(cur@) =~= before.push(cur0).update(before.len() as int, cur0.push(c)));
        }
        i = i + 1;
    }
    assert(s@.take(cs.len() as int) =~= s@);
    let ghost before = out@.map_values(|x: String| x@);
    let ghost last = cur@;
    out.push(cur);
    assert(out@.map_values(|x: String| x@) =~= before.push(last));
    out
}

/// The text without one carriage return at its end.
pub open spec fn trim_cr(s: Seq<char>) -> Seq<char> {
    if s.len() > 0 && s.last() == '\r' {
        s.drop_last()
    } else {
        s
    }
}

/// Takes one carriage return off the end of the text.
pub fn without_cr(s: String) -> (r: String)
    ensures
        r@ == trim_cr(s@),
{
    let cs = chars_of(s.as_str());
    let n = cs.len();
    if n > 0 && cs[n - 1] == '\r' {
        let mut t = s;
        let _ = pop_char(&mut t);
        t
    } else {
        s
    }
}

/// The body of a single-quoted shell word for `s`: each `'` closes the
/// quotes, is written escaped, and opens them again.
pub open spec fn quote_body(s: Seq<char>) -> Seq<char>
    decreases s.len(),
{
    if s.len() == 0 {
        Seq::empty()
    } else if s.last() == '\'' {
        quote_body(s.drop_last()) + seq!['\'', '\\', '\'', '\'']
    } else {
        quote_body(s.drop_last()).push(s.last())
    }
}

/// `s` as one word for a POSIX shell, whatever it holds: inside single
/// quotes, in which nothing but `'` is special.
pub open spec fn shell_quoted(s: Seq<char>) -> Seq<char> {
    seq!['\''] + quote_body(s) + seq!['\'']
}

/// `s` quoted as one shell word.
pub fn shell_quote(s: &str) -> (r: String)
    ensures
        r@ == shell_quoted(s@),
{
    let cs = chars_of(s);
    let mut out = String::new();
    push_char(&mut out, '\'');
    let mut i: usize = 0;
    while i < cs.len()
        invariant
            i <= cs.len(),
            cs@ == s@,
            out@ == seq!['\''] + quote_body(s@.take(i as int)),
        decreases cs.len() - i,
    {
        proof {
            assert(s@.take(i + 1).drop_last() =~= s@.take(i as int));
            assert(s@.take(i + 1).last() == cs@[i as int]);
        }
        let ghost before = out@;
        if cs[i] == '\'' {
            push_char(&mut out, '\'');
            push_char(&mut out, '\\');
            push_char(&mut out, '\'');
            push_char(&mut out, '\'');
            assert(out@ =~= seq!['\''] + quote_body(s@.take(i + 1)));
        } else {
            push_char(&mut out, cs[i]);
            assert(out@ =~= seq!['\''] + quote_body(s@.take(i + 1)));
        }
        i = i + 1;
    }
    assert(s@.take(cs.len() as int) =~= s@);
    push_char(&mut out, '\'');
    out
}

/// Where a shell is while it reads a word: outside quotes, inside single
/// quotes, or just after a backslash outside quotes.
pub enum QuoteState {
    Outside,
    Inside,
    Escaped,
}

/// The characters `p` put before a word read, if one was read.
pub open spec fn prefixed(p: Seq<char>, o: Option<Seq<char>>) -> Option<Seq<char>> {
    match o {
        Some(x) => Some(p + x),
        None => None,
    }
}

/// What a POSIX shell reads from `t`, from the state `st` on, as the rest of
/// a word made of single-quoted runs and backslash escapes: inside single
/// quotes every character stands for itself up to the closing quote;
/// outside them a backslash makes the next character stand for itself,
/// except a newline, which it removes. Any other character outside quotes
/// ends or changes the word, and reads as no such word here.
pub open spec fn shell_reads(t: Seq<char>, st: QuoteState) -> Option<Seq<char>>
    decreases t.len(),
{
    if t.len() == 0 {
        match st {
            QuoteState::Outside => Some(Seq::empty()),
            _ => None,
        }
    } else {
        let c = t[0];
        let rest = t.drop_first();
        match st {
            QuoteState::Outside => if c == '\'' {
                shell_reads(rest, QuoteState::Inside)
            } else if c == '\\' {
                shell_reads(rest, QuoteState::Escaped)
            } else {
                None
            },
            QuoteState::Inside => if c == '\'' {
                shell_reads(rest, QuoteState::Outside)
            } else {
                prefixed(seq![c], shell_reads(rest, QuoteState::Inside))
            },
            QuoteState::Escaped => if c == '\n' {
                None
            } else {
                prefixed(seq![c], shell_reads(rest, QuoteState::Outside))
            },
        }
    }
}

proof fn lemma_quote_body_reads(s: Seq<char>, r: Seq<char>)
    ensures
        shell_reads(quote_body(s) + r, QuoteState::Inside) == prefixed(s, shell_reads(r, QuoteState::Inside)),
    decreases s.len(),
{
    if s.len() == 0 {
        assert(quote_body(s) + r =~= r);
        match shell_reads(r, QuoteState::Inside) {
            Some(y) => assert(s + y =~= y),
            None => {},
        }
    } else {
        let d = s.drop_last();
        let c = s.last();
        if c == '\'' {
            let piece = seq!['\'', '\\', '\'', '\''];
            assert(quote_body(s) + r =~= quote_body(d) + (piece + r));
            lemma_quote_body_reads(d, piece + r);
            let t1 = piece + r;
            assert(t1[0] == '\'');
            let t2 = t1.drop_first();
            assert(t2[0] == '\\');
            let t3 = t2.drop_first();
            assert(t3[0] == '\'');
            let t4 = t3.drop_first();
            assert(t4[0] == '\'');
            assert(t4.drop_first() =~= r);
            assert(shell_reads(t1, QuoteState::Inside) == shell_reads(t2, QuoteState::Outside));
            assert(shell_reads(t2, QuoteState::Outside) == shell_reads(t3, QuoteState::Escaped));
            assert(shell_reads(t3, QuoteState::Escaped) == prefixed(
                seq!['\''],
                shell_reads(t4, QuoteState::Outside),
            ));
            assert(shell_reads(t4, QuoteState::Outside) == shell_reads(r, QuoteState::Inside));
        } else {
            let piece = seq![c];
            assert(quote_body(s) + r =~= quote_body(d) + (piece + r));
            lemma_quote_body_reads(d, piece + r);
            assert((piece + r)[0] == c);
            assert((piece + r).drop_first() =~= r);
        }
        match shell_reads(r, QuoteState::Inside) {
            Some(y) => assert(d + (seq![c] + y) =~= s + y),
            None => {},
        }
    }
}

/// A shell reads the quoted word back as the text, whatever the text holds.
pub proof fn lemma_shell_reads_quoted(s: Seq<char>)
    ensures
        shell_reads(shell_quoted(s), QuoteState::Outside) == Some(s),
{
    let t = shell_quoted(s);
    assert(t[0] == '\'');
    assert(t.drop_first() =~= quote_body(s) + seq!['\'']);
    assert(shell_reads(t, QuoteState::Outside) == shell_reads(quote_body(s) + seq!['\''], QuoteState::Inside));
    lemma_quote_body_reads(s, seq!['\'']);
    let q = seq!['\''];
    assert(q[0] == '\'');
    assert(q.drop_first() =~= Seq::<char>::empty());
    assert(shell_reads(q, QuoteState::Inside) == shell_reads(Seq::<char>::empty(), QuoteState::Outside));
    assert(s + Seq::<char>::empty() =~= s);
}

/// A decimal digit.
pub open spec fn is_digit(c: char) -> bool {
    '0' <= c && c <= '9'
}

/// Every character is a decimal digit.
pub open spec fn all_digits(s: Seq<char>) -> bool {
    forall|i: int| 0 <= i < s.len() ==> is_digit(#[trigger] s[i])
}

/// The number the decimal digits of `s` write.
pub open spec fn digits_value(s: Seq<char>) -> nat
    decreases s.len(),
{
    if s.len() == 0 {
        0
    } else {
        digits_value(s.drop_last()) * 10 + ((s.last() as int) - ('0' as int)) as nat
    }
}

proof fn lemma_digits_value_grows(s: Seq<char>, k: int)
    requires
        all_digits(s),
        0 <= k <= s.len(),
    ensures
        digits_value(s.take(k)) <= digits_value(s),
    decreases s.len(),
{
    if k < s.len() {
        let r = s.drop_last();
        assert(all_digits(r)) by {
            assert forall|i: int| 0 <= i < r.len() implies is_digit(#[trigger] r[i]) by {
                assert(r[i] == s[i]);
            }
        }
        lemma_digits_value_grows(r, k);
        assert(r.take(k) =~= s.take(k));
        assert(is_digit(s[s.len() - 1]));
    } else {
        assert(s.take(k) =~= s);
    }
}

/// The number written by `s`, when it is a non-empty run of decimal digits
/// whose value fits a `u64`.
pub fn parse_u64(s: &str) -> (r: Option<u64>)
    ensures
        r == (if s@.len() > 0 && all_digits(s@) && digits_value(s@) <= u64::MAX {
            Some(digits_value(s@) as u64)
        } else {
            None
        }),
{
    let cs = chars_of(s);
    if cs.len() == 0 {
        return None;
    }
    let mut v: u64 = 0;
    let mut i: usize = 0;
    while i < cs.len()
        invariant
            i <= cs.len(),
            cs@ == s@,
            all_digits(s@.take(i as int)),
            v == digits_value(s@.take(i as int)),
        decreases cs.len() - i,
    {
        let c = cs[i];
        proof {
            assert(s@.take(i + 1).drop_last() =~= s@.take(i as int));
            assert(s@.take(i + 1).last() == c);
        }
        if c < '0' || c > '9' {
            assert(!is_digit(s@[i as int]));
            return None;
        }
        let d: u64 = (c as u32 - '0' as u32) as u64;
        assert(all_digits(s@.take(i + 1))) by {
            assert forall|j: int| 0 <= j < i + 1 implies is_digit(#[trigger] s@.take(i + 1)[j]) by {
                if j < i {
                    assert(s@.take(i + 1)[j] == s@.take(i as int)[j]);
                }
            }
        }
        match v.checked_mul(10) {
            Some(m) => match m.checked_add(d) {
                Some(n) => {
                    v = n;
                },
                None => {
                    proof {
                        if all_digits(s@) {
                            lemma_digits_value_grows(s@, i + 1);
                        }
                    }
                    return None;
                },
            },
            None => {
                proof {
                    if all_digits(s@) {
                        lemma_digits_value_grows(s@, i + 1);
                    }
                }
                return None;
            },
        }
        i = i + 1;
    }
    assert(s@.take(cs.len() as int) =~= s@);
    Some(v)
}

} // verus!
