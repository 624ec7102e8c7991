//! Small text helpers over character sequences.
use vstd::prelude::*;

verus! {

/// The character of a decimal digit.
pub open spec fn digit_char(d: nat) -> char {
    if d == 0 { '0' }
    else if d == 1 { '1' }
    else if d == 2 { '2' }
    else if d == 3 { '3' }
    else if d == 4 { '4' }
    else if d == 5 { '5' }
    else if d == 6 { '6' }
    else if d == 7 { '7' }
    else if d == 8 { '8' }
    else { '9' }
}

/// The decimal notation of a natural number, without leading zeros.
pub open spec fn decimal(n: nat) -> Seq<char>
    decreases n,
{
    if n < 10 {
        seq![digit_char(n)]
    } else {
        decimal(n / 10).push(digit_char(n % 10))
    }
}

/// The decimal notation of an integer, with a leading minus sign when negative.
pub open spec fn signed_decimal(n: int) -> Seq<char> {
    if n < 0 {
        seq!['-'] + decimal((-n) as nat)
    } else {
        decimal(n as nat)
    }
}

/// Whether `s` begins with `prefix`.
pub open spec fn has_prefix(s: Seq<char>, prefix: Seq<char>) -> bool {
    prefix.len() <= s.len() && s.subrange(0, prefix.len() as int) == prefix
}

/// An ASCII upper-case letter mapped to lower case; every other character kept.
pub open spec fn ascii_lower_char(c: char) -> char {
    if 'A' <= c && c <= 'Z' {
        ((c as u8) + 32) as char
    } else {
        c
    }
}

/// `s` with its ASCII letters in lower case.
pub open spec fn ascii_lower(s: Seq<char>) -> Seq<char> {
    s.map_values(|c: char| ascii_lower_char(c))
}

/// Lines joined with a newline between each two.
pub open spec fn join_lines(lines: Seq<Seq<char>>) -> Seq<char>
    decreases lines.len(),
{
    if lines.len() == 0 {
        Seq::empty()
    } else if lines.len() == 1 {
        lines[0]
    } else {
        join_lines(lines.drop_last()) + seq!['\n'] + lines.last()
    }
}

/// The pieces of a text between newline characters (one piece for a text
/// without any).
pub open spec fn split_newlines(s: Seq<char>) -> Seq<Seq<char>>
    decreases s.len(),
{
    if s.len() == 0 {
        seq![Seq::empty()]
    } else {
        let prev = split_newlines(s.drop_last());
        if s.last() == '\n' {
            prev.push(Seq::empty())
        } else {
            prev.update(prev.len() - 1, prev.last().push(s.last()))
        }
    }
}

/// The pieces of a text between newlines, the final newline ending the last
/// piece rather than starting an empty one; no pieces for an empty text.
pub open spec fn raw_lines(s: Seq<char>) -> Seq<Seq<char>> {
    if s.len() == 0 {
        Seq::empty()
    } else if s.last() == '\n' {
        split_newlines(s.drop_last())
    } else {
        split_newlines(s)
    }
}

/// A line without the carriage return that ends it, if any.
pub open spec fn strip_cr(l: Seq<char>) -> Seq<char> {
    if l.len() > 0 && l.last() == '\r' { l.drop_last() } else { l }
}

/// Whether the `i`-th raw piece of `s` was ended by a newline.
pub open spec fn newline_ended(s: Seq<char>, i: int) -> bool {
    i < raw_lines(s).len() - 1 || s.last() == '\n'
}

/// The lines of a text: split at each newline, where a carriage return just
/// before a newline belongs to the line ending; no lines for an empty text,
/// and a final newline ends the last line rather than starting an empty one.
pub open spec fn text_lines(s: Seq<char>) -> Seq<Seq<char>> {
    Seq::new(raw_lines(s).len(), |i: int| if newline_ended(s, i) { strip_cr(raw_lines(s)[i]) } else { raw_lines(s)[i] })
}

/// `l` without a final carriage return.
pub fn without_cr(l: &str) -> (r: String)
    ensures
        r@ == strip_cr(l@),
{
    let n = l.unicode_len();
    if n > 0 && l.get_char(n - 1) == '\r' {
        String::from_str(l.substring_char(0, n - 1))
    } else {
        String::from_str(l)
    }
}

/// The lines of a text.
pub fn lines_of(s: &str) -> (r: Vec<String>)
    ensures
        r@.map_values(|l: String| l@) == text_lines(s@),
{
    let raw = raw_lines_of(s);
    let n = s.unicode_len();
    let ends_with_newline = n > 0 && s.get_char(n - 1) == '\n';
    let mut r: Vec<String> = Vec::new();
    let mut i: usize = 0;
    while i < raw.len()
        invariant
            i <= raw@.len(),
            n == s@.len(),
            raw@.map_values(|l: String| l@) == raw_lines(s@),
            ends_with_newline == (n > 0 && s@.last() == '\n'),
            r@.map_values(|l: String| l@) == text_lines(s@).take(i as int),
        decreases raw@.len() - i,
    {
        let ghost before = r@;
        let line = if i + 1 < raw.len() || ends_with_newline {
            without_cr(raw[i].as_str())
        } else {
            raw[i].clone()
        };
        proof {
            assert(raw_lines(s@)[i as int] == raw@[i as int]@);
            if ends_with_newline { assert(s@.last() == '\n'); }
            if n == 0 { assert(raw_lines(s@).len() == 0); }
        }
        assert(n > 0);
        assert((i + 1 < raw@.len() || ends_with_newline) == newline_ended(s@, i as int));
        assert(line@ == text_lines(s@)[i as int]);
        r.push(line);
        assert(r@.map_values(|l: String| l@) =~= before.map_values(|l: String| l@).push(line@));
        assert(r@.map_values(|l: String| l@) =~= text_lines(s@).take(i as int + 1));
        i = i + 1;
    }
    assert(text_lines(s@).take(raw@.len() as int) =~= text_lines(s@));
    r
}

proof fn lemma_split_nonempty(s: Seq<char>)
    ensures
        split_newlines(s).len() >= 1,
    decreases s.len(),
{
    if s.len() > 0 {
        lemma_split_nonempty(s.drop_last());
    }
}

/// The raw pieces of a text.
fn raw_lines_of(s: &str) -> (r: Vec<String>)
    ensures
        r@.map_values(|l: String| l@) == raw_lines(s@),
{
    let n = s.unicode_len();
    if n == 0 {
        let r: Vec<String> = Vec::new();
        assert(r@.map_values(|l: String| l@) =~= raw_lines(s@));
        return r;
    }
    let end: usize = if s.get_char(n - 1) == '\n' { n - 1 } else { n };
    let ghost body = s@.take(end as int);
    let mut done: Vec<String> = Vec::new();
    let mut current = String::new();
    let mut i: usize = 0;
    while i < end
        invariant
            end <= n == s@.len(),
            i <= end,
            body == s@.take(end as int),
            done@.map_values(|l: String| l@).push(current@) == split_newlines(body.take(i as int)),
        decreases end - i,
    {
        let c = s.get_char(i);
        proof {
            lemma_split_nonempty(body.take(i as int));
            assert(body.take(i as int + 1).drop_last() =~= body.take(i as int));
            assert(body.take(i as int + 1).last() == c);
        }
        if c == '\n' {
            let ghost before = done@;
            let finished = current;
            done.push(finished);
            current = String::new();
            assert(done@.map_values(|l: String| l@) =~= before.map_values(|l: String| l@).push(finished@));
            assert(done@.map_values(|l: String| l@).push(current@) =~= split_newlines(body.take(i as int + 1)));
        } else {
            let ghost before = current@;
            push_char(&mut current, c);
            assert(done@.map_values(|l: String| l@).push(current@) =~= split_newlines(body.take(i as int + 1)));
        }
        i = i + 1;
    }
    let ghost before = done@;
    done.push(current);
    proof {
        assert(body.take(end as int) =~= body);
        assert(done@.map_values(|l: String| l@) =~= before.map_values(|l: String| l@).push(current@));
        if end == n {
            assert(body =~= s@);
        } else {
            assert(body =~= s@.drop_last());
        }
    }
    done
}

/// Whether a character has the Unicode White_Space property.
pub open spec fn is_white_space(c: char) -> bool {
    ('\u{9}' <= c && c <= '\u{d}') || c == ' ' || c == '\u{85}' || c == '\u{a0}'
        || c == '\u{1680}' || ('\u{2000}' <= c && c <= '\u{200a}') || c == '\u{2028}'
        || c == '\u{2029}' || c == '\u{202f}' || c == '\u{205f}' || c == '\u{3000}'
}

/// `s` without its leading white space.
pub open spec fn trim_start_ws(s: Seq<char>) -> Seq<char>
    decreases s.len(),
{
    if s.len() > 0 && is_white_space(s[0]) { trim_start_ws(s.drop_first()) } else { s }
}

/// `s` without its trailing white space.
pub open spec fn trim_end_ws(s: Seq<char>) -> Seq<char>
    decreases s.len(),
{
    if s.len() > 0 && is_white_space(s.last()) { trim_end_ws(s.drop_last()) } else { s }
}

/// `s` without leading and trailing white space.
pub open spec fn trimmed(s: Seq<char>) -> Seq<char> {
    trim_end_ws(trim_start_ws(s))
}

/// Relies on `str::trim`, which removes leading and trailing characters with
/// the Unicode White_Space property.
#[verifier::external_body]
pub(crate) fn trim_text(s: &str) -> (r: String)
    ensures
        r@ == trimmed(s@),
{
    s.trim().to_string()
}

/// Relies on `String::push`: appends one character.
#[verifier::external_body]
pub(crate) fn push_char(s: &mut String, c: char)
    ensures
        final(s)@ == old(s)@.push(c),
{
    s.push(c)
}

/// Appends `t` to `s`.
pub fn push_text(s: &mut String, t: &str)
    ensures
        final(s)@ == old(s)@ + t@,
{
    s.append(t);
}

/// The decimal notation of `n`.
pub fn render_u64(n: u64) -> (r: String)
    ensures
        r@ == decimal(n as nat),
{
    let mut digits: Vec<char> = Vec::new();
    let mut m: u64 = n;
    // digits holds the low-order digits, least significant first
    while m >= 10
        invariant
            m <= n,
            decimal(n as nat) == decimal(m as nat) + digits@.reverse(),
        decreases m,
    {
        let c = digit_of(m % 10);
        proof {
            lemma_decimal_split(m as nat);
            assert(digits@.push(c).reverse() =~= seq![c] + digits@.reverse());
        }
        digits.push(c);
        m = m / 10;
        proof {
            assert(decimal(n as nat) =~= decimal(m as nat) + digits@.reverse());
        }
    }
    let c = digit_of(m);
    proof {
        lemma_decimal_split(m as nat);
        assert(digits@.push(c).reverse() =~= seq![c] + digits@.reverse());
    }
    digits.push(c);
    assert(decimal(n as nat) =~= digits@.reverse());
    let mut r = String::new();
    let mut i: usize = digits.len();
    assert(digits@.reverse().subrange(0, 0) =~= Seq::<char>::empty());
    while i > 0
        invariant
            i <= digits@.len(),
            r@ == digits@.reverse().subrange(0, (digits@.len() - i) as int),
            decimal(n as nat) == digits@.reverse(),
        decreases i,
    {
        i = i - 1;
        push_char(&mut r, digits[i]);
        assert(digits@.reverse().subrange(0, (digits@.len() - i) as int) =~=
            digits@.reverse().subrange(0, (digits@.len() - i - 1) as int).push(digits@[i as int]));
    }
    assert(digits@.reverse().subrange(0, digits@.len() as int) =~= digits@.reverse());
    r
}

proof fn lemma_decimal_split(m: nat)
    ensures
        m >= 10 ==> decimal(m) == decimal(m / 10).push(digit_char(m % 10)),
        m < 10 ==> decimal(m) == seq![digit_char(m)],
{
}

fn digit_of(d: u64) -> (c: char)
    requires
        d < 10,
    ensures
        c == digit_char(d as nat),
{
    if d == 0 { '0' }
    else if d == 1 { '1' }
    else if d == 2 { '2' }
    else if d == 3 { '3' }
    else if d == 4 { '4' }
    else if d == 5 { '5' }
    else if d == 6 { '6' }
    else if d == 7 { '7' }
    else if d == 8 { '8' }
    else { '9' }
}

/// The decimal notation of `n`, with a minus sign when negative.
pub fn render_i32(n: i32) -> (r: String)
    ensures
        r@ == signed_decimal(n as int),
{
    if n < 0 {
        let magnitude: u64 = (0i64 - (n as i64)) as u64;
        let digits = render_u64(magnitude);
        let mut r = String::new();
        push_char(&mut r, '-');
        push_text(&mut r, digits.as_str());
        assert(r@ =~= seq!['-'] + decimal((-(n as int)) as nat));
        r
    } else {
        render_u64(n as u64)
    }
}

/// Whether `s` begins with `prefix`.
pub fn starts_with(s: &str, prefix: &str) -> (r: bool)
    ensures
        r == has_prefix(s@, prefix@),
{
    let n = s.unicode_len();
    let k = prefix.unicode_len();
    if k > n {
        return false;
    }
    let mut i: usize = 0;
    while i < k
        invariant
            k <= n,
            n == s@.len(),
            k == prefix@.len(),
            i <= k,
            forall|j: int| 0 <= j < i ==> s@[j] == prefix@[j],
        decreases k - i,
    {
        if s.get_char(i) != prefix.get_char(i) {
            assert(s@.subrange(0, k as int)[i as int] != prefix@[i as int]);
            return false;
        }
        i = i + 1;
    }
    assert(s@.subrange(0, k as int) =~= prefix@);
    true
}

/// Whether two texts hold the same characters.
pub fn same_text(a: &str, b: &str) -> (r: bool)
    ensures
        r == (a@ == b@),
{
    if a.unicode_len() != b.unicode_len() {
        return false;
    }
    let r = starts_with(a, b);
    assert(a@.subrange(0, b@.len() as int) =~= a@);
    r
}

/// `s` with its ASCII letters in lower case.
pub fn to_ascii_lower(s: &str) -> (r: String)
    ensures
        r@ == ascii_lower(s@),
{
    let n = s.unicode_len();
    let mut r = String::new();
    let mut i: usize = 0;
    while i < n
        invariant
            n == s@.len(),
            i <= n,
            r@ == ascii_lower(s@.subrange(0, i as int)),
        decreases n - i,
    {
        let c = s.get_char(i);
        let lc = if 'A' <= c && c <= 'Z' {
            ((c as u8) + 32) as char
        } else {
            c
        };
        push_char(&mut r, lc);
        i = i + 1;
        assert(ascii_lower(s@.subrange(0, i as int)) =~= ascii_lower(s@.subrange(0, (i - 1) as int)).push(lc));
    }
    assert(s@.subrange(0, n as int) =~= s@);
    r
}

} // verus!
