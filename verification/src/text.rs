use vstd::prelude::*;

verus! {

broadcast use vstd::string::group_string_axioms;

/// The characters of a string slice, in order.
pub fn chars_of(s: &str) -> (v: Vec<char>)
    ensures
        v@ == s@,
{
    let mut v: Vec<char> = Vec::new();
    for c in it: s.chars()
        invariant
            v@ == it.history(),
    {
        v.push(c);
    }
    v
}

/// An owned copy of a string slice.
pub fn owned(s: &str) -> (r: String)
    ensures
        r@ == s@,
{
    s.to_owned()
}

/// Appends one character to a string (`String::push`).
#[verifier::external_body]
pub(crate) fn push_char(s: &mut String, c: char)
    ensures
        final(s)@ == old(s)@.push(c),
{
    s.push(c);
}

/// A string holding `chars[from..to]`.
pub fn string_from_range(chars: &Vec<char>, from: usize, to: usize) -> (s: String)
    requires
        from <= to <= chars.len(),
    ensures
        s@ == chars@.subrange(from as int, to as int),
{
    let mut s = String::new();
    let mut i = from;
    while i < to
        invariant
            from <= i <= to <= chars.len(),
            s@ == chars@.subrange(from as int, i as int),
        decreases to - i,
    {
        push_char(&mut s, chars[i]);
        assert(chars@.subrange(from as int, i + 1) =~= chars@.subrange(from as int, i as int).push(
            chars@[i as int],
        ));
        i += 1;
    }
    s
}

/// A string holding all of `chars`.
pub fn string_from_chars(chars: &Vec<char>) -> (s: String)
    ensures
        s@ == chars@,
{
    let s = string_from_range(chars, 0, chars.len());
    assert(chars@.subrange(0, chars@.len() as int) =~= chars@);
    s
}

/// Appends a string slice to a string.
pub fn append_str(s: &mut String, tail: &str)
    ensures
        final(s)@ == old(s)@ + tail@,
{
    s.append(tail);
}

/// Whitespace as `char::is_whitespace` defines it: the Unicode `White_Space` property.
pub open spec fn is_white_space(c: char) -> bool {
    let u = c as u32;
    (0x9 <= u <= 0xd) || u == 0x20 || u == 0x85 || u == 0xa0 || u == 0x1680 || (0x2000 <= u
        <= 0x200a) || u == 0x2028 || u == 0x2029 || u == 0x202f || u == 0x205f || u == 0x3000
}

pub fn is_white_space_char(c: char) -> (b: bool)
    ensures
        b == is_white_space(c),
{
    let u = c as u32;
    (0x9 <= u && u <= 0xd) || u == 0x20 || u == 0x85 || u == 0xa0 || u == 0x1680 || (0x2000 <= u
        && u <= 0x200a) || u == 0x2028 || u == 0x2029 || u == 0x202f || u == 0x205f || u == 0x3000
}

/// `s` without its leading whitespace.
pub open spec fn trim_start(s: Seq<char>) -> Seq<char>
    decreases s.len(),
{
    if s.len() > 0 && is_white_space(s[0]) {
        trim_start(s.drop_first())
    } else {
        s
    }
}

/// `s` without its trailing whitespace.
pub open spec fn trim_end(s: Seq<char>) -> Seq<char>
    decreases s.len(),
{
    if s.len() > 0 && is_white_space(s.last()) {
        trim_end(s.drop_last())
    } else {
        s
    }
}

/// `s` without leading and trailing whitespace (`str::trim`).
pub open spec fn trim(s: Seq<char>) -> Seq<char> {
    trim_end(trim_start(s))
}

proof fn lemma_trim_start_shape(s: Seq<char>)
    ensures
        exists|k: int|
            0 <= k <= s.len() && #[trigger] s.skip(k) == trim_start(s) && (forall|i: int|
                0 <= i < k ==> is_white_space(s[i])),
        trim_start(s).len() == 0 || !is_white_space(trim_start(s)[0]),
    decreases s.len(),
{
    if s.len() > 0 && is_white_space(s[0]) {
        lemma_trim_start_shape(s.drop_first());
        let k = choose|k: int|
            0 <= k <= s.drop_first().len() && #[trigger] s.drop_first().skip(k) == trim_start(s.drop_first())
                && (forall|i: int| 0 <= i < k ==> is_white_space(s.drop_first()[i]));
        assert(s.skip(k + 1) =~= s.drop_first().skip(k));
        assert forall|i: int| 0 <= i < k + 1 implies is_white_space(s[i]) by {
            if i > 0 {
                assert(s[i] == s.drop_first()[i - 1]);
            }
        }
    } else {
        assert(s.skip(0) =~= s);
    }
}

proof fn lemma_trim_end_shape(s: Seq<char>)
    ensures
        exists|k: int|
            0 <= k <= s.len() && #[trigger] s.take(k) == trim_end(s) && (forall|i: int|
                k <= i < s.len() ==> is_white_space(s[i])),
        trim_end(s).len() == 0 || !is_white_space(trim_end(s).last()),
    decreases s.len(),
{
    if s.len() > 0 && is_white_space(s.last()) {
        lemma_trim_end_shape(s.drop_last());
        let k = choose|k: int|
            0 <= k <= s.drop_last().len() && #[trigger] s.drop_last().take(k) == trim_end(s.drop_last())
                && (forall|i: int| k <= i < s.drop_last().len() ==> is_white_space(s.drop_last()[i]));
        assert(s.take(k) =~= s.drop_last().take(k));
        assert forall|i: int| k <= i < s.len() implies is_white_space(s[i]) by {
            if i < s.len() - 1 {
                assert(s[i] == s.drop_last()[i]);
            }
        }
    } else {
        assert(s.take(s.len() as int) =~= s);
    }
}

/// Trimming removes exactly the whitespace at both ends: what is left is a contiguous part
/// of `s`, everything before and after it is whitespace, and it neither starts nor ends
/// with whitespace.
pub proof fn law_trim_removes_only_outer_whitespace(s: Seq<char>)
    ensures
        exists|a: int, b: int|
            0 <= a <= b <= s.len() && #[trigger] s.subrange(a, b) == trim(s) && (forall|i: int|
                0 <= i < a ==> is_white_space(s[i])) && (forall|i: int| b <= i < s.len() ==> is_white_space(s[i])),
        trim(s).len() == 0 || (!is_white_space(trim(s)[0]) && !is_white_space(trim(s).last())),
{
    lemma_trim_start_shape(s);
    let t = trim_start(s);
    lemma_trim_end_shape(t);
    let a = choose|k: int|
        0 <= k <= s.len() && #[trigger] s.skip(k) == trim_start(s) && (forall|i: int| 0 <= i < k ==> is_white_space(s[i]));
    let m = choose|k: int|
        0 <= k <= t.len() && #[trigger] t.take(k) == trim_end(t) && (forall|i: int| k <= i < t.len() ==> is_white_space(t[i]));
    let b = a + m;
    assert(s.subrange(a, b) =~= t.take(m));
    assert forall|i: int| b <= i < s.len() implies is_white_space(s[i]) by {
        assert(s[i] == t[i - a]);
    }
    if trim(s).len() > 0 {
        assert(trim(s)[0] == t[0]);
    }
}

/// The bounds of the trimmed part of `chars`.
pub fn trim_bounds(chars: &Vec<char>) -> (r: (usize, usize))
    ensures
        r.0 <= r.1 <= chars.len(),
        chars@.subrange(r.0 as int, r.1 as int) == trim(chars@),
{
    let len = chars.len();
    let mut i: usize = 0;
    assert(chars@.subrange(0, len as int) =~= chars@);
    while i < len && is_white_space_char(chars[i])
        invariant
            i <= len == chars.len(),
            trim_start(chars@) == trim_start(chars@.subrange(i as int, len as int)),
        decreases len - i,
    {
        assert(chars@.subrange(i as int, len as int).drop_first() =~= chars@.subrange(
            i + 1,
            len as int,
        ));
        i += 1;
    }
    let ghost start = chars@.subrange(i as int, len as int);
    assert(trim_start(chars@) == start);
    let mut j: usize = len;
    while j > i && is_white_space_char(chars[j - 1])
        invariant
            i <= j <= len == chars.len(),
            start == chars@.subrange(i as int, len as int),
            trim_end(start) == trim_end(chars@.subrange(i as int, j as int)),
        decreases j,
    {
        assert(chars@.subrange(i as int, j as int).drop_last() =~= chars@.subrange(
            i as int,
            j - 1,
        ));
        j -= 1;
    }
    (i, j)
}

/// `str::trim`, as a new string.
pub fn trim_str(s: &str) -> (t: String)
    ensures
        t@ == trim(s@),
{
    let chars = chars_of(s);
    let (from, to) = trim_bounds(&chars);
    string_from_range(&chars, from, to)
}

/// Whether `s` begins with `prefix`.
pub open spec fn starts_with(s: Seq<char>, prefix: Seq<char>) -> bool {
    prefix.len() <= s.len() && s.subrange(0, prefix.len() as int) == prefix
}

/// Whether `s` ends with `suffix`.
pub open spec fn ends_with(s: Seq<char>, suffix: Seq<char>) -> bool {
    suffix.len() <= s.len() && s.subrange(s.len() - suffix.len(), s.len() as int) == suffix
}

/// Whether `chars[from..]` begins with `prefix`.
pub fn has_prefix_at(chars: &Vec<char>, from: usize, prefix: &Vec<char>) -> (b: bool)
    requires
        from <= chars.len(),
    ensures
        b == starts_with(chars@.subrange(from as int, chars.len() as int), prefix@),
{
    if prefix.len() > chars.len() - from {
        return false;
    }
    let mut k: usize = 0;
    while k < prefix.len()
        invariant
            from + prefix.len() <= chars.len(),
            k <= prefix.len(),
            forall|m: int| 0 <= m < k ==> chars@[from + m] == prefix@[m],
        decreases prefix.len() - k,
    {
        if chars[from + k] != prefix[k] {
            assert(chars@.subrange(from as int, chars.len() as int).subrange(0, prefix.len() as int)[k as int]
                != prefix@[k as int]);
            return false;
        }
        k += 1;
    }
    assert(chars@.subrange(from as int, chars.len() as int).subrange(0, prefix.len() as int)
        =~= prefix@);
    true
}

/// Whether `s` begins with `prefix` (`str::starts_with`).
pub fn str_starts_with(s: &str, prefix: &str) -> (b: bool)
    ensures
        b == starts_with(s@, prefix@),
{
    let chars = chars_of(s);
    let p = chars_of(prefix);
    assert(chars@.subrange(0, chars@.len() as int) =~= chars@);
    has_prefix_at(&chars, 0, &p)
}

/// Whether `pattern` occurs somewhere in `s`.
pub open spec fn contains_seq(s: Seq<char>, pattern: Seq<char>) -> bool {
    exists|i: int|
        0 <= i && i + pattern.len() <= s.len() && #[trigger] s.subrange(i, i + pattern.len())
            == pattern
}

/// Whether `pattern` occurs somewhere in `s` (`str::contains`).
pub fn str_contains(s: &str, pattern: &str) -> (b: bool)
    ensures
        b == contains_seq(s@, pattern@),
{
    let chars = chars_of(s);
    let p = chars_of(pattern);
    if p.len() > chars.len() {
        return false;
    }
    if p.len() == 0 {
        assert(s@.subrange(0, 0 + pattern@.len() as int) =~= pattern@);
        return true;
    }
    let mut i: usize = 0;
    let last = chars.len() - p.len();
    while i <= last
        invariant
            0 < p.len() <= chars.len(),
            last == chars.len() - p.len(),
            i <= last + 1,
            chars@ == s@,
            p@ == pattern@,
            forall|j: int|
                0 <= j < i ==> #[trigger] chars@.subrange(j, j + p@.len()) != p@,
        decreases last + 1 - i,
    {
        if has_prefix_at(&chars, i, &p) {
            assert(chars@.subrange(i as int, chars.len() as int).subrange(0, p.len() as int)
                =~= chars@.subrange(i as int, i + p.len()));
            return true;
        }
        assert(chars@.subrange(i as int, chars.len() as int).subrange(0, p.len() as int)
            =~= chars@.subrange(i as int, i + p.len()));
        i += 1;
    }
    false
}


/// The views of a sequence of character vectors.
pub open spec fn views_of(v: Seq<Vec<char>>) -> Seq<Seq<char>> {
    v.map_values(|x: Vec<char>| x@)
}

proof fn lemma_views_push(v: Seq<Vec<char>>, x: Vec<char>)
    ensures
        views_of(v.push(x)) == views_of(v).push(x@),
{
    assert(views_of(v.push(x)) =~= views_of(v).push(x@));
}

/// A line without the carriage return that ended it.
pub open spec fn strip_cr(line: Seq<char>) -> Seq<char> {
    if line.len() > 0 && line.last() == '\r' {
        line.drop_last()
    } else {
        line
    }
}

/// The lines of `rest`, after `done` and the unfinished line `cur`.
pub open spec fn lines_from(done: Seq<Seq<char>>, cur: Seq<char>, rest: Seq<char>) -> Seq<
    Seq<char>,
>
    decreases rest.len(),
{
    if rest.len() == 0 {
        if cur.len() == 0 {
            done
        } else {
            done.push(cur)
        }
    } else if rest[0] == '\n' {
        lines_from(done.push(strip_cr(cur)), seq![], rest.drop_first())
    } else {
        lines_from(done, cur.push(rest[0]), rest.drop_first())
    }
}

/// The lines of `s` (`str::lines`): split at `\n`, a `\r` before it dropped, no empty
/// line after a final `\n`.
pub open spec fn lines(s: Seq<char>) -> Seq<Seq<char>> {
    lines_from(seq![], seq![], s)
}

/// The lines of `chars`.
pub fn split_lines(chars: &Vec<char>) -> (out: Vec<Vec<char>>)
    ensures
        views_of(out@) == lines(chars@),
{
    let mut done: Vec<Vec<char>> = Vec::new();
    let mut cur: Vec<char> = Vec::new();
    let mut i: usize = 0;
    let len = chars.len();
    assert(chars@.subrange(0, len as int) =~= chars@);
    assert(views_of(done@) =~= Seq::<Seq<char>>::empty());
    while i < len
        invariant
            i <= len == chars.len(),
            lines_from(views_of(done@), cur@, chars@.subrange(i as int, len as int)) == lines(
                chars@,
            ),
        decreases len - i,
    {
        let c = chars[i];
        let ghost rest = chars@.subrange(i as int, len as int);
        assert(rest.drop_first() =~= chars@.subrange(i + 1, len as int));
        if c == '\n' {
            if cur.len() > 0 && cur[cur.len() - 1] == '\r' {
                cur.pop();
            }
            proof {
                lemma_views_push(done@, cur);
            }
            done.push(cur);
            cur = Vec::new();
            assert(cur@ =~= seq![]);
        } else {
            cur.push(c);
        }
        i += 1;
    }
    if cur.len() > 0 {
        proof {
            lemma_views_push(done@, cur);
        }
        done.push(cur);
    }
    done
}

/// The whitespace-separated words of `rest`, after `done` and the unfinished word `cur`.
pub open spec fn words_from(done: Seq<Seq<char>>, cur: Seq<char>, rest: Seq<char>) -> Seq<
    Seq<char>,
>
    decreases rest.len(),
{
    if rest.len() == 0 {
        if cur.len() == 0 {
            done
        } else {
            done.push(cur)
        }
    } else if is_white_space(rest[0]) {
        words_from(
            if cur.len() == 0 {
                done
            } else {
                done.push(cur)
            },
            seq![],
            rest.drop_first(),
        )
    } else {
        words_from(done, cur.push(rest[0]), rest.drop_first())
    }
}

/// The words of `s` (`str::split_whitespace`).
pub open spec fn split_whitespace(s: Seq<char>) -> Seq<Seq<char>> {
    words_from(seq![], seq![], s)
}

/// The whitespace-separated words of `chars`.
pub fn split_words(chars: &Vec<char>) -> (out: Vec<Vec<char>>)
    ensures
        views_of(out@) == split_whitespace(chars@),
{
    let mut done: Vec<Vec<char>> = Vec::new();
    let mut cur: Vec<char> = Vec::new();
    let mut i: usize = 0;
    let len = chars.len();
    assert(chars@.subrange(0, len as int) =~= chars@);
    assert(views_of(done@) =~= Seq::<Seq<char>>::empty());
    while i < len
        invariant
            i <= len == chars.len(),
            words_from(views_of(done@), cur@, chars@.subrange(i as int, len as int))
                == split_whitespace(chars@),
        decreases len - i,
    {
        let c = chars[i];
        let ghost rest = chars@.subrange(i as int, len as int);
        assert(rest.drop_first() =~= chars@.subrange(i + 1, len as int));
        if is_white_space_char(c) {
            if cur.len() > 0 {
                proof {
                    lemma_views_push(done@, cur);
                }
                done.push(cur);
                cur = Vec::new();
            }
            assert(cur@ =~= seq![]);
        } else {
            cur.push(c);
        }
        i += 1;
    }
    if cur.len() > 0 {
        proof {
            lemma_views_push(done@, cur);
        }
        done.push(cur);
    }
    done
}

/// `s` with every `from` replaced by `to` (`str::replace` with a character pattern).
pub open spec fn replace_char(s: Seq<char>, from: char, to: Seq<char>) -> Seq<char>
    decreases s.len(),
{
    if s.len() == 0 {
        seq![]
    } else {
        replace_char(s.drop_last(), from, to) + if s.last() == from {
            to
        } else {
            seq![s.last()]
        }
    }
}

/// `s.replace(from, to)`.
pub fn replace_char_str(s: &str, from: char, to: &str) -> (out: String)
    ensures
        out@ == replace_char(s@, from, to@),
{
    let chars = chars_of(s);
    let mut out = String::new();
    let mut i: usize = 0;
    assert(chars@.subrange(0, 0) =~= seq![]);
    while i < chars.len()
        invariant
            i <= chars.len(),
            chars@ == s@,
            out@ == replace_char(chars@.subrange(0, i as int), from, to@),
        decreases chars.len() - i,
    {
        assert(chars@.subrange(0, i + 1).drop_last() =~= chars@.subrange(0, i as int));
        if chars[i] == from {
            append_str(&mut out, to);
        } else {
            push_char(&mut out, chars[i]);
            assert(out@ =~= replace_char(chars@.subrange(0, i as int), from, to@) + seq![
                chars@[i as int],
            ]);
        }
        i += 1;
    }
    assert(chars@.subrange(0, chars@.len() as int) =~= chars@);
    out
}

/// The ASCII digit for `d`.
pub open spec fn digit_char(d: int) -> char {
    (d + 48) as char
}

/// The decimal numeral of `n`, without leading zeros (`Display` of an unsigned integer).
pub open spec fn decimal(n: nat) -> Seq<char>
    decreases n,
{
    if n < 10 {
        seq![digit_char(n as int)]
    } else {
        decimal(n / 10).push(digit_char((n % 10) as int))
    }
}

/// The decimal numeral of `n`, with a `-` before a negative value (`Display` of a signed
/// integer).
pub open spec fn signed_decimal(n: int) -> Seq<char> {
    if n < 0 {
        seq!['-'] + decimal((-n) as nat)
    } else {
        decimal(n as nat)
    }
}

/// Appends the decimal numeral of `n`.
pub fn push_decimal(s: &mut String, n: u64)
    ensures
        final(s)@ == old(s)@ + decimal(n as nat),
    decreases n,
{
    if n >= 10 {
        push_decimal(s, n / 10);
    }
    let d = (n % 10) as u8;
    push_char(s, (48u8 + d) as char);
    assert(final(s)@ =~= old(s)@ + decimal(n as nat));
}

/// Appends the decimal numeral of `n`, signed.
pub fn push_signed_decimal(s: &mut String, n: i64)
    ensures
        final(s)@ == old(s)@ + signed_decimal(n as int),
{
    if n < 0 {
        push_char(s, '-');
        let magnitude: u64 = (-(n as i128)) as u64;
        push_decimal(s, magnitude);
        assert(final(s)@ =~= old(s)@ + signed_decimal(n as int));
    } else {
        push_decimal(s, n as u64);
    }
}

/// Whether every character is ASCII.
pub open spec fn is_ascii_text(s: Seq<char>) -> bool {
    forall|i: int| 0 <= i < s.len() ==> ((#[trigger] s[i]) as u32) < 128
}

/// An ASCII upper-case letter as lower case; any other character as it is.
pub open spec fn ascii_lower_char(c: char) -> char {
    if 'A' <= c <= 'Z' {
        ((c as u32) + 32) as char
    } else {
        c
    }
}

/// An ASCII lower-case letter as upper case; any other character as it is.
pub open spec fn ascii_upper_char(c: char) -> char {
    if 'a' <= c <= 'z' {
        ((c as u32) - 32) as char
    } else {
        c
    }
}

/// Every ASCII upper-case letter of `s` in lower case.
pub open spec fn ascii_lowercase(s: Seq<char>) -> Seq<char> {
    s.map_values(|c: char| ascii_lower_char(c))
}

/// Every ASCII lower-case letter of `s` in upper case.
pub open spec fn ascii_uppercase(s: Seq<char>) -> Seq<char> {
    s.map_values(|c: char| ascii_upper_char(c))
}

/// Upper-casing ASCII text keeps it ASCII, and doing it twice is doing it once.
pub proof fn law_ascii_uppercase_idempotent(s: Seq<char>)
    requires
        is_ascii_text(s),
    ensures
        is_ascii_text(ascii_uppercase(s)),
        ascii_uppercase(ascii_uppercase(s)) == ascii_uppercase(s),
{
    assert(ascii_uppercase(ascii_uppercase(s)) =~= ascii_uppercase(s));
}

/// Lower-casing ASCII text keeps it ASCII, and doing it twice is doing it once.
pub proof fn law_ascii_lowercase_idempotent(s: Seq<char>)
    requires
        is_ascii_text(s),
    ensures
        is_ascii_text(ascii_lowercase(s)),
        ascii_lowercase(ascii_lowercase(s)) == ascii_lowercase(s),
{
    assert(ascii_lowercase(ascii_lowercase(s)) =~= ascii_lowercase(s));
}

/// Whether `c` is an ASCII decimal digit.
pub open spec fn is_digit(c: char) -> bool {
    48 <= (c as u32) <= 57
}

/// Why the standard library's `FromStr` for an integer type refuses a string.
#[derive(Debug, Clone, Copy, PartialEq, Eq, Structural)]
pub enum IntErrorKind {
    /// The string is empty.
    Empty,
    /// A character that is not a digit stands where a digit was expected.
    InvalidDigit,
    /// The number is above the type's maximum.
    PosOverflow,
    /// The number is below the type's minimum.
    NegOverflow,
}

/// The text of a `ParseIntError` of this kind.
pub open spec fn int_error_text(kind: IntErrorKind) -> Seq<char> {
    match kind {
        IntErrorKind::Empty => "cannot parse integer from empty string"@,
        IntErrorKind::InvalidDigit => "invalid digit found in string"@,
        IntErrorKind::PosOverflow => "number too large to fit in target type"@,
        IntErrorKind::NegOverflow => "number too small to fit in target type"@,
    }
}

impl IntErrorKind {
    pub fn message(&self) -> (m: String)
        ensures
            m@ == int_error_text(*self),
    {
        match self {
            IntErrorKind::Empty => "cannot parse integer from empty string".to_owned(),
            IntErrorKind::InvalidDigit => "invalid digit found in string".to_owned(),
            IntErrorKind::PosOverflow => "number too large to fit in target type".to_owned(),
            IntErrorKind::NegOverflow => "number too small to fit in target type".to_owned(),
        }
    }
}

/// Reads the decimal digits of `body` onto `acc`, subtracting them when `negative`, from the
/// left: the first non-digit is an invalid digit, and the first step that leaves
/// `lo..=hi` an overflow.
pub open spec fn scan_digits(body: Seq<char>, acc: int, negative: bool, lo: int, hi: int) -> Result<
    int,
    IntErrorKind,
>
    decreases body.len(),
{
    if body.len() == 0 {
        Ok(acc)
    } else if !is_digit(body[0]) {
        Err(IntErrorKind::InvalidDigit)
    } else {
        let d = (body[0] as u32) - 48;
        let next = if negative {
            acc * 10 - d
        } else {
            acc * 10 + d
        };
        if next > hi {
            Err(IntErrorKind::PosOverflow)
        } else if next < lo {
            Err(IntErrorKind::NegOverflow)
        } else {
            scan_digits(body.drop_first(), next, negative, lo, hi)
        }
    }
}

/// What the standard library's `FromStr` for an integer type with range `lo..=hi` makes of
/// `s`: an optional `+` (or `-` for a signed type) and then at least one decimal digit.
pub open spec fn int_from_str(s: Seq<char>, signed: bool, lo: int, hi: int) -> Result<int, IntErrorKind> {
    if s.len() == 0 {
        Err(IntErrorKind::Empty)
    } else if s.len() == 1 && (s[0] == '+' || s[0] == '-') {
        Err(IntErrorKind::InvalidDigit)
    } else if s[0] == '+' {
        scan_digits(s.drop_first(), 0, false, lo, hi)
    } else if signed && s[0] == '-' {
        scan_digits(s.drop_first(), 0, true, lo, hi)
    } else {
        scan_digits(s, 0, false, lo, hi)
    }
}

proof fn lemma_scan_push(a: Seq<char>, c: char, acc: int, negative: bool, lo: int, hi: int)
    ensures
        scan_digits(a.push(c), acc, negative, lo, hi) == match scan_digits(a, acc, negative, lo, hi) {
            Ok(v) => scan_digits(seq![c], v, negative, lo, hi),
            Err(k) => Err(k),
        },
    decreases a.len(),
{
    if a.len() == 0 {
        assert(a.push(c) =~= seq![c]);
    } else {
        assert(a.push(c)[0] == a[0]);
        assert(a.push(c).drop_first() =~= a.drop_first().push(c));
        if is_digit(a[0]) {
            let d = (a[0] as u32) - 48;
            let next = if negative {
                acc * 10 - d
            } else {
                acc * 10 + d
            };
            lemma_scan_push(a.drop_first(), c, next, negative, lo, hi);
        }
    }
}

proof fn lemma_scan_decimal(n: nat, negative: bool, lo: int, hi: int)
    requires
        lo <= 0 <= hi,
        negative ==> lo <= -(n as int),
        !negative ==> n <= hi,
    ensures
        scan_digits(decimal(n), 0, negative, lo, hi) == Ok::<int, IntErrorKind>(
            if negative {
                -(n as int)
            } else {
                n as int
            },
        ),
    decreases n,
{
    let last = digit_char((n % 10) as int);
    assert(is_digit(last) && (last as u32) - 48 == n % 10);
    let one = seq![last];
    assert(one.drop_first() =~= Seq::<char>::empty());
    assert(one[0] == last);
    let target: int = if negative {
        -(n as int)
    } else {
        n as int
    };
    if n < 10 {
        assert(decimal(n) == one);
        assert(n % 10 == n);
        assert(scan_digits(Seq::<char>::empty(), target, negative, lo, hi) == Ok::<int, IntErrorKind>(target));
    } else {
        lemma_scan_decimal(n / 10, negative, lo, hi);
        lemma_scan_push(decimal(n / 10), last, 0, negative, lo, hi);
        assert((n / 10) * 10 + n % 10 == n);
        let v: int = if negative {
            -((n / 10) as int)
        } else {
            (n / 10) as int
        };
        assert(if negative { v * 10 - (n % 10) } else { v * 10 + (n % 10) } == target);
        assert(scan_digits(Seq::<char>::empty(), target, negative, lo, hi) == Ok::<int, IntErrorKind>(target));
        assert(scan_digits(one, v, negative, lo, hi) == Ok::<int, IntErrorKind>(target));
    }
}

proof fn lemma_scan_in_range(body: Seq<char>, acc: int, negative: bool, lo: int, hi: int)
    requires
        lo <= acc <= hi,
    ensures
        scan_digits(body, acc, negative, lo, hi) matches Ok(v) ==> lo <= v <= hi,
    decreases body.len(),
{
    if body.len() > 0 && is_digit(body[0]) {
        let d = (body[0] as u32) - 48;
        let next = if negative {
            acc * 10 - d
        } else {
            acc * 10 + d
        };
        if lo <= next <= hi {
            lemma_scan_in_range(body.drop_first(), next, negative, lo, hi);
        }
    }
}

/// A number read is always within the type's range.
pub proof fn law_read_numbers_are_in_range(s: Seq<char>, signed: bool, lo: int, hi: int)
    requires
        lo <= 0 <= hi,
    ensures
        int_from_str(s, signed, lo, hi) matches Ok(v) ==> lo <= v <= hi,
{
    if s.len() > 0 {
        lemma_scan_in_range(s, 0, false, lo, hi);
        lemma_scan_in_range(s.drop_first(), 0, false, lo, hi);
        lemma_scan_in_range(s.drop_first(), 0, true, lo, hi);
    }
}

/// Every integer reads back from its decimal numeral: the standard library's `FromStr`
/// gives `n` for the `Display` text of `n`, for `u32`, `u64` and `i64` alike.
pub proof fn law_decimal_reads_back(n: int, signed: bool, lo: int, hi: int)
    requires
        lo <= 0 <= hi,
        lo <= n <= hi,
        !signed ==> n >= 0,
    ensures
        int_from_str(signed_decimal(n), signed, lo, hi) == Ok::<int, IntErrorKind>(n),
{
    if n < 0 {
        let m = (-n) as nat;
        lemma_scan_decimal(m, true, lo, hi);
        lemma_decimal_len(m);
        assert(signed_decimal(n).drop_first() =~= decimal(m));
    } else {
        lemma_scan_decimal(n as nat, false, lo, hi);
        lemma_decimal_len(n as nat);
        lemma_decimal_first_is_digit(n as nat);
    }
}

proof fn lemma_decimal_first_is_digit(n: nat)
    ensures
        is_digit(decimal(n)[0]),
    decreases n,
{
    if n >= 10 {
        lemma_decimal_first_is_digit(n / 10);
        lemma_decimal_len(n / 10);
        assert(decimal(n)[0] == decimal(n / 10)[0]);
    }
}

/// `s.parse::<u32>()`.
pub open spec fn parse_u32_result(s: Seq<char>) -> Result<int, IntErrorKind> {
    int_from_str(s, false, 0, u32::MAX as int)
}

/// `s.parse::<u64>()`.
pub open spec fn parse_u64_result(s: Seq<char>) -> Result<int, IntErrorKind> {
    int_from_str(s, false, 0, u64::MAX as int)
}

/// `s.parse::<i64>()`.
pub open spec fn parse_i64_result(s: Seq<char>) -> Result<int, IntErrorKind> {
    int_from_str(s, true, i64::MIN as int, i64::MAX as int)
}

/// `s.parse::<u32>().ok()`.
pub open spec fn parse_u32_spec(s: Seq<char>) -> Option<u32> {
    match parse_u32_result(s) {
        Ok(n) => Some(n as u32),
        Err(_) => None,
    }
}

/// `s.parse::<u64>().ok()`.
pub open spec fn parse_u64_spec(s: Seq<char>) -> Option<u64> {
    match parse_u64_result(s) {
        Ok(n) => Some(n as u64),
        Err(_) => None,
    }
}

/// The integer that `chars` spells, as the standard library's `FromStr` for an integer
/// type with range `lo..=hi` reads it.
pub fn parse_int_chars(chars: &Vec<char>, signed: bool, lo: i128, hi: i128) -> (r: Result<
    i128,
    IntErrorKind,
>)
    requires
        -(u64::MAX as i128) - 1 <= lo <= 0 <= hi <= u64::MAX as i128,
    ensures
        match r {
            Ok(v) => int_from_str(chars@, signed, lo as int, hi as int) == Ok::<int, IntErrorKind>(
                v as int,
            ) && lo <= v <= hi,
            Err(k) => int_from_str(chars@, signed, lo as int, hi as int) == Err::<int, IntErrorKind>(k),
        },
{
    let len = chars.len();
    if len == 0 {
        return Err(IntErrorKind::Empty);
    }
    if len == 1 && (chars[0] == '+' || chars[0] == '-') {
        return Err(IntErrorKind::InvalidDigit);
    }
    let negative = signed && chars[0] == '-';
    let start: usize = if chars[0] == '+' || negative {
        1
    } else {
        0
    };
    let ghost s = chars@;
    assert(start == 1 ==> s.drop_first() =~= s.skip(1));
    assert(s.skip(0) =~= s);
    let mut acc: i128 = 0;
    let mut i: usize = start;
    while i < len
        invariant
            s == chars@,
            len == chars.len(),
            start <= i <= len,
            -(u64::MAX as i128) - 1 <= lo <= acc <= hi <= u64::MAX as i128,
            int_from_str(s, signed, lo as int, hi as int) == scan_digits(
                s.skip(i as int),
                acc as int,
                negative,
                lo as int,
                hi as int,
            ),
        decreases len - i,
    {
        let ghost rest = s.skip(i as int);
        assert(rest[0] == chars@[i as int]);
        assert(rest.drop_first() =~= s.skip(i + 1));
        let c = chars[i];
        let code = c as u32;
        if code < 48 || code > 57 {
            return Err(IntErrorKind::InvalidDigit);
        }
        let d = (code - 48) as i128;
        let next = if negative {
            acc * 10 - d
        } else {
            acc * 10 + d
        };
        if next > hi {
            return Err(IntErrorKind::PosOverflow);
        }
        if next < lo {
            return Err(IntErrorKind::NegOverflow);
        }
        acc = next;
        i += 1;
    }
    assert(s.skip(len as int).len() == 0);
    Ok(acc)
}

/// `s.parse::<u64>().ok()`, on a string's characters.
pub fn parse_u64_chars(chars: &Vec<char>) -> (r: Option<u64>)
    ensures
        r == parse_u64_spec(chars@),
{
    match parse_int_chars(chars, false, 0, u64::MAX as i128) {
        Ok(v) => Some(v as u64),
        Err(_) => None,
    }
}

/// `s.parse::<u32>().ok()`, on a string's characters.
pub fn parse_u32_chars(chars: &Vec<char>) -> (r: Option<u32>)
    ensures
        r == parse_u32_spec(chars@),
{
    match parse_int_chars(chars, false, 0, u32::MAX as i128) {
        Ok(v) => Some(v as u32),
        Err(_) => None,
    }
}

/// `s.parse::<u32>()`, on a string's characters.
pub fn parse_u32_detailed(chars: &Vec<char>) -> (r: Result<u32, IntErrorKind>)
    ensures
        match r {
            Ok(v) => parse_u32_result(chars@) == Ok::<int, IntErrorKind>(v as int),
            Err(k) => parse_u32_result(chars@) == Err::<int, IntErrorKind>(k),
        },
{
    match parse_int_chars(chars, false, 0, u32::MAX as i128) {
        Ok(v) => Ok(v as u32),
        Err(k) => Err(k),
    }
}

/// `s.parse::<i64>()`, on a string's characters.
pub fn parse_i64_detailed(chars: &Vec<char>) -> (r: Result<i64, IntErrorKind>)
    ensures
        match r {
            Ok(v) => parse_i64_result(chars@) == Ok::<int, IntErrorKind>(v as int),
            Err(k) => parse_i64_result(chars@) == Err::<int, IntErrorKind>(k),
        },
{
    match parse_int_chars(chars, true, i64::MIN as i128, i64::MAX as i128) {
        Ok(v) => Ok(v as i64),
        Err(k) => Err(k),
    }
}

/// Whether two character vectors hold the same characters.
pub fn chars_eq(a: &Vec<char>, b: &Vec<char>) -> (r: bool)
    ensures
        r == (a@ == b@),
{
    if a.len() != b.len() {
        return false;
    }
    let mut i: usize = 0;
    while i < a.len()
        invariant
            a.len() == b.len(),
            i <= a.len(),
            forall|k: int| 0 <= k < i ==> a@[k] == b@[k],
        decreases a.len() - i,
    {
        if a[i] != b[i] {
            return false;
        }
        i += 1;
    }
    assert(a@ =~= b@);
    true
}

/// Whether two string slices hold the same characters.
pub fn str_eq(a: &str, b: &str) -> (r: bool)
    ensures
        r == (a@ == b@),
{
    chars_eq(&chars_of(a), &chars_of(b))
}


/// The octal numeral of `n`, without leading zeros (`{:o}` of an unsigned integer).
pub open spec fn octal(n: nat) -> Seq<char>
    decreases n,
{
    if n < 8 {
        seq![digit_char(n as int)]
    } else {
        octal(n / 8).push(digit_char((n % 8) as int))
    }
}

/// Appends the octal numeral of `n`.
pub fn push_octal(s: &mut String, n: u32)
    ensures
        final(s)@ == old(s)@ + octal(n as nat),
    decreases n,
{
    if n >= 8 {
        push_octal(s, n / 8);
    }
    let d = (n % 8) as u8;
    push_char(s, (48u8 + d) as char);
    assert(final(s)@ =~= old(s)@ + octal(n as nat));
}

proof fn lemma_digit_char_injective(a: int, b: int)
    requires
        0 <= a < 10,
        0 <= b < 10,
        digit_char(a) == digit_char(b),
    ensures
        a == b,
{
    assert(digit_char(a) as u32 == a + 48);
    assert(digit_char(b) as u32 == b + 48);
}

proof fn lemma_decimal_len(n: nat)
    ensures
        decimal(n).len() >= 1,
        n >= 10 ==> decimal(n).len() >= 2,
    decreases n,
{
    if n >= 10 {
        lemma_decimal_len(n / 10);
    }
}

/// Different numbers have different decimal numerals.
pub proof fn lemma_decimal_injective(a: nat, b: nat)
    requires
        decimal(a) == decimal(b),
    ensures
        a == b,
    decreases a,
{
    lemma_decimal_len(a);
    lemma_decimal_len(b);
    if a < 10 && b < 10 {
        assert(decimal(a) == seq![digit_char(a as int)]);
        assert(decimal(b) == seq![digit_char(b as int)]);
        assert(seq![digit_char(a as int)][0] == digit_char(a as int));
        assert(seq![digit_char(b as int)][0] == digit_char(b as int));
        assert(digit_char(a as int) == digit_char(b as int));
        lemma_digit_char_injective(a as int, b as int);
    } else if a >= 10 && b >= 10 {
        assert(decimal(a) == decimal(a / 10).push(digit_char((a % 10) as int)));
        assert(decimal(b) == decimal(b / 10).push(digit_char((b % 10) as int)));
        let da = decimal(a / 10).push(digit_char((a % 10) as int));
        let db = decimal(b / 10).push(digit_char((b % 10) as int));
        assert(da[da.len() - 1] == digit_char((a % 10) as int));
        assert(db[db.len() - 1] == digit_char((b % 10) as int));
        assert(decimal(a).last() == decimal(b).last());
        assert(digit_char((a % 10) as int) == digit_char((b % 10) as int));
        lemma_digit_char_injective((a % 10) as int, (b % 10) as int);
        assert(decimal(a).drop_last() =~= decimal(a / 10));
        assert(decimal(b).drop_last() =~= decimal(b / 10));
        lemma_decimal_injective(a / 10, b / 10);
    }
}


/// `s` without any trailing `c` (`str::trim_end_matches` with a character).
pub open spec fn trim_end_char(s: Seq<char>, c: char) -> Seq<char>
    decreases s.len(),
{
    if s.len() > 0 && s.last() == c {
        trim_end_char(s.drop_last(), c)
    } else {
        s
    }
}

/// `s` without any trailing repetitions of `pat` (`str::trim_end_matches` with a string).
pub open spec fn trim_end_seq(s: Seq<char>, pat: Seq<char>) -> Seq<char>
    decreases s.len(),
{
    if pat.len() > 0 && ends_with(s, pat) {
        trim_end_seq(s.subrange(0, s.len() - pat.len()), pat)
    } else {
        s
    }
}

/// `s` without any leading repetitions of `pat` (`str::trim_start_matches` with a string).
pub open spec fn trim_start_seq(s: Seq<char>, pat: Seq<char>) -> Seq<char>
    decreases s.len(),
{
    if pat.len() > 0 && starts_with(s, pat) {
        trim_start_seq(s.subrange(pat.len() as int, s.len() as int), pat)
    } else {
        s
    }
}

/// The part of `s` after its last `c`, all of `s` without one (`s.rsplit(c).next()`).
pub open spec fn last_segment(s: Seq<char>, c: char) -> Seq<char>
    decreases s.len(),
{
    if s.len() == 0 {
        s
    } else if s.last() == c {
        seq![]
    } else {
        last_segment(s.drop_last(), c).push(s.last())
    }
}

/// Whether `chars[..end]` ends with `pat`.
fn ends_with_before(chars: &Vec<char>, end: usize, pat: &Vec<char>) -> (b: bool)
    requires
        end <= chars.len(),
    ensures
        b == ends_with(chars@.subrange(0, end as int), pat@),
{
    if pat.len() > end {
        return false;
    }
    let from = end - pat.len();
    let mut k: usize = 0;
    while k < pat.len()
        invariant
            from + pat.len() == end <= chars.len(),
            k <= pat.len(),
            forall|m: int| 0 <= m < k ==> chars@[from + m] == pat@[m],
        decreases pat.len() - k,
    {
        if chars[from + k] != pat[k] {
            assert(chars@.subrange(0, end as int).subrange(from as int, end as int)[k as int]
                != pat@[k as int]);
            return false;
        }
        k += 1;
    }
    assert(chars@.subrange(0, end as int).subrange(from as int, end as int) =~= pat@);
    true
}

/// `s.trim_end_matches(c)`.
pub fn trim_end_char_str(s: &str, c: char) -> (t: String)
    ensures
        t@ == trim_end_char(s@, c),
{
    let chars = chars_of(s);
    let mut end = chars.len();
    assert(chars@.subrange(0, end as int) =~= chars@);
    while end > 0 && chars[end - 1] == c
        invariant
            end <= chars.len(),
            trim_end_char(chars@, c) == trim_end_char(chars@.subrange(0, end as int), c),
        decreases end,
    {
        assert(chars@.subrange(0, end as int).drop_last() =~= chars@.subrange(0, end - 1));
        end -= 1;
    }
    string_from_range(&chars, 0, end)
}

/// `s.trim_end_matches(pat)`.
pub fn trim_end_str(s: &str, pat: &str) -> (t: String)
    ensures
        t@ == trim_end_seq(s@, pat@),
{
    let chars = chars_of(s);
    let p = chars_of(pat);
    let mut end = chars.len();
    assert(chars@.subrange(0, end as int) =~= chars@);
    while p.len() > 0 && ends_with_before(&chars, end, &p)
        invariant
            end <= chars.len(),
            p@ == pat@,
            trim_end_seq(chars@, p@) == trim_end_seq(chars@.subrange(0, end as int), p@),
        decreases end,
    {
        assert(chars@.subrange(0, end as int).subrange(0, end - p.len()) =~= chars@.subrange(
            0,
            end - p.len(),
        ));
        end -= p.len();
    }
    string_from_range(&chars, 0, end)
}

/// `s.trim_start_matches(pat)`.
pub fn trim_start_str(s: &str, pat: &str) -> (t: String)
    ensures
        t@ == trim_start_seq(s@, pat@),
{
    let chars = chars_of(s);
    let p = chars_of(pat);
    let len = chars.len();
    let mut start: usize = 0;
    assert(chars@.subrange(0, len as int) =~= chars@);
    while p.len() > 0 && has_prefix_at(&chars, start, &p)
        invariant
            start <= len == chars.len(),
            p@ == pat@,
            trim_start_seq(chars@, p@) == trim_start_seq(chars@.subrange(start as int, len as int), p@),
        decreases len - start,
    {
        assert(chars@.subrange(start as int, len as int).subrange(p.len() as int, (len - start) as int) =~= chars@.subrange(
            start + p.len(),
            len as int,
        ));
        start += p.len();
    }
    string_from_range(&chars, start, len)
}

/// `s.rsplit(c).next()`: the part after the last `c`.
pub fn last_segment_str(s: &str, c: char) -> (t: String)
    ensures
        t@ == last_segment(s@, c),
{
    let chars = chars_of(s);
    let len = chars.len();
    let mut start = len;
    assert(chars@.subrange(len as int, len as int) =~= seq![]);
    assert(chars@.subrange(0, len as int) =~= chars@);
    assert(last_segment(chars@, c) + seq![] =~= last_segment(chars@, c));
    while start > 0 && chars[start - 1] != c
        invariant
            start <= len == chars.len(),
            forall|k: int| start <= k < len ==> chars@[k] != c,
            last_segment(chars@, c) == last_segment(chars@.subrange(0, start as int), c) + chars@.subrange(start as int, len as int),
        decreases start,
    {
        assert(chars@.subrange(0, start as int).drop_last() =~= chars@.subrange(0, start - 1));
        assert(chars@.subrange(start - 1, len as int) =~= seq![chars@[start - 1]] + chars@.subrange(start as int, len as int));
        assert(last_segment(chars@.subrange(0, start as int), c) == last_segment(chars@.subrange(0, start - 1), c).push(chars@[start - 1]));
        assert(last_segment(chars@.subrange(0, start - 1), c).push(chars@[start - 1]) + chars@.subrange(start as int, len as int)
            =~= last_segment(chars@.subrange(0, start - 1), c) + chars@.subrange(start - 1, len as int));
        start -= 1;
    }
    assert(chars@.subrange(0, len as int) =~= chars@);
    proof {
        if start > 0 {
            assert(last_segment(chars@.subrange(0, start as int), c) =~= seq![]);
        } else {
            assert(chars@.subrange(0, 0) =~= seq![]);
        }
        assert(seq![] + chars@.subrange(start as int, len as int) =~= chars@.subrange(start as int, len as int));
    }
    string_from_range(&chars, start, len)
}

/// `s.ends_with(suffix)`.
pub fn str_ends_with(s: &str, suffix: &str) -> (b: bool)
    ensures
        b == ends_with(s@, suffix@),
{
    let chars = chars_of(s);
    let p = chars_of(suffix);
    assert(chars@.subrange(0, chars@.len() as int) =~= chars@);
    ends_with_before(&chars, chars.len(), &p)
}

} // verus!
