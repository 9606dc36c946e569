//! Text as sequences of characters: trimming, splitting, searching, numbers
//! and padding.
use vstd::prelude::*;

verus! {

/// `String::push` appends the given character to the end of the string.
pub assume_specification[ String::push ](s: &mut String, c: char)
    ensures
        final(s)@ == old(s)@.push(c),
;

// ---------------------------------------------------------------------------
// Views of collections
// ---------------------------------------------------------------------------
/// The views of the elements of a sequence.
pub open spec fn views<T: View>(s: Seq<T>) -> Seq<T::V> {
    Seq::new(s.len(), |i: int| s[i]@)
}

/// The view of an optional string.
pub open spec fn opt_text(s: Option<String>) -> Option<Seq<char>> {
    match s {
        Some(t) => Some(t@),
        None => None,
    }
}

pub proof fn lemma_views_push<T: View>(s: Seq<T>, x: T)
    ensures
        views(s.push(x)) == views(s).push(x@),
{
    assert(views(s.push(x)) =~= views(s).push(x@));
}

// ---------------------------------------------------------------------------
// Characters and strings
// ---------------------------------------------------------------------------
/// The characters of a string.
pub fn chars_of(s: &str) -> (r: Vec<char>)
    ensures
        r@ == s@,
{
    let mut out: Vec<char> = Vec::new();
    for c in it: s.chars()
        invariant
            it.seq() == s@,
            out@ == s@.take(it.index()),
    {
        out.push(c);
    }
    assert(s@.take(s@.len() as int) == s@);
    out
}

/// The string made of `chars[from..to]`.
pub fn slice_text(chars: &Vec<char>, from: usize, to: usize) -> (r: String)
    requires
        from <= to <= chars@.len(),
    ensures
        r@ == chars@.subrange(from as int, to as int),
{
    let mut out = String::new();
    let mut i: usize = from;
    while i < to
        invariant
            from <= i <= to <= chars@.len(),
            out@ == chars@.subrange(from as int, i as int),
        decreases to - i,
    {
        out.push(chars[i]);
        i = i + 1;
        assert(chars@.subrange(from as int, i as int) =~= chars@.subrange(
            from as int,
            i - 1,
        ).push(chars@[i - 1]));
    }
    out
}

/// Whether two sequences of characters are the same.
pub fn same_chars(a: &Vec<char>, b: &Vec<char>) -> (r: bool)
    ensures
        r == (a@ == b@),
{
    if a.len() != b.len() {
        return false;
    }
    let mut i: usize = 0;
    while i < a.len()
        invariant
            i <= a.len() == b.len(),
            forall|j: int| 0 <= j < i ==> a@[j] == b@[j],
        decreases a.len() - i,
    {
        if a[i] != b[i] {
            return false;
        }
        i = i + 1;
    }
    assert(a@ =~= b@);
    true
}

/// Whether two strings hold the same characters.
pub fn same_text(a: &str, b: &str) -> (r: bool)
    ensures
        r == (a@ == b@),
{
    same_chars(&chars_of(a), &chars_of(b))
}

/// The number of characters of a string.
pub fn char_count(s: &str) -> (r: usize)
    ensures
        r == s@.len(),
{
    chars_of(s).len()
}

/// The text followed by the given pieces.
pub fn concat3(a: &str, b: &str, c: &str) -> (r: String)
    ensures
        r@ == a@ + b@ + c@,
{
    let mut out = a.to_owned();
    out.append(b);
    out.append(c);
    out
}

// ---------------------------------------------------------------------------
// Character classes and trimming
// ---------------------------------------------------------------------------
/// Whether the character ends a line: line feed or carriage return.
pub open spec fn newline_char(c: char) -> bool {
    c == '\n' || c == '\r'
}

/// The characters with the Unicode property `White_Space`.
pub open spec fn white_space(c: char) -> bool {
    ||| 0x09 <= c as u32 <= 0x0d
    ||| c as u32 == 0x20
    ||| c as u32 == 0x85
    ||| c as u32 == 0xa0
    ||| c as u32 == 0x1680
    ||| 0x2000 <= c as u32 <= 0x200a
    ||| c as u32 == 0x2028
    ||| c as u32 == 0x2029
    ||| c as u32 == 0x202f
    ||| c as u32 == 0x205f
    ||| c as u32 == 0x3000
}

/// Whether the character has the Unicode property `White_Space`.
pub fn is_white_space(c: char) -> (r: bool)
    ensures
        r == white_space(c),
{
    let n: u32 = c as u32;
    (0x09 <= n && n <= 0x0d) || n == 0x20 || n == 0x85 || n == 0xa0 || n == 0x1680 || (0x2000 <= n
        && n <= 0x200a) || n == 0x2028 || n == 0x2029 || n == 0x202f || n == 0x205f || n == 0x3000
}

pub open spec fn ascii_digit(c: char) -> bool {
    '0' <= c <= '9'
}

/// A set of characters that can be trimmed off the ends of a text.
#[derive(Clone, Copy, PartialEq, Eq, Structural)]
pub enum CharClass {
    /// Line feed and carriage return.
    Newline,
    /// Line feed alone.
    LineFeed,
    /// All white space.
    WhiteSpace,
}

impl CharClass {
    pub open spec fn has(self, c: char) -> bool {
        match self {
            CharClass::Newline => newline_char(c),
            CharClass::LineFeed => c == '\n',
            CharClass::WhiteSpace => white_space(c),
        }
    }

    pub fn holds(self, c: char) -> (r: bool)
        ensures
            r == self.has(c),
    {
        match self {
            CharClass::Newline => c == '\n' || c == '\r',
            CharClass::LineFeed => c == '\n',
            CharClass::WhiteSpace => is_white_space(c),
        }
    }
}

/// The text without its leading characters of the class.
pub open spec fn trim_start_of(s: Seq<char>, class: CharClass) -> Seq<char>
    decreases s.len(),
{
    if s.len() > 0 && class.has(s[0]) {
        trim_start_of(s.drop_first(), class)
    } else {
        s
    }
}

/// The text without its trailing characters of the class.
pub open spec fn trim_end_of(s: Seq<char>, class: CharClass) -> Seq<char>
    decreases s.len(),
{
    if s.len() > 0 && class.has(s.last()) {
        trim_end_of(s.drop_last(), class)
    } else {
        s
    }
}

/// The text without its leading and trailing characters of the class.
pub open spec fn trim_of(s: Seq<char>, class: CharClass) -> Seq<char> {
    trim_end_of(trim_start_of(s, class), class)
}

/// Where the text begins once leading characters of the class are left out.
fn first_kept(chars: &Vec<char>, class: CharClass) -> (r: usize)
    ensures
        r <= chars@.len(),
        trim_start_of(chars@, class) == chars@.skip(r as int),
{
    let mut i: usize = 0;
    assert(chars@.skip(0) =~= chars@);
    while i < chars.len() && class.holds(chars[i])
        invariant
            i <= chars@.len(),
            trim_start_of(chars@, class) == trim_start_of(chars@.skip(i as int), class),
        decreases chars.len() - i,
    {
        assert(chars@.skip(i as int).drop_first() =~= chars@.skip(i + 1));
        i = i + 1;
    }
    i
}

/// Where `chars[from..]` ends once trailing characters of the class are left
/// out.
fn last_kept(chars: &Vec<char>, from: usize, class: CharClass) -> (r: usize)
    requires
        from <= chars@.len(),
    ensures
        from <= r <= chars@.len(),
        trim_end_of(chars@.skip(from as int), class) == chars@.subrange(from as int, r as int),
{
    let mut i: usize = chars.len();
    assert(chars@.skip(from as int) =~= chars@.subrange(from as int, i as int));
    while i > from && class.holds(chars[i - 1])
        invariant
            from <= i <= chars@.len(),
            trim_end_of(chars@.skip(from as int), class) == trim_end_of(
                chars@.subrange(from as int, i as int),
                class,
            ),
        decreases i,
    {
        assert(chars@.subrange(from as int, i as int).drop_last() =~= chars@.subrange(
            from as int,
            i - 1,
        ));
        i = i - 1;
    }
    i
}

/// The text without its leading and trailing characters of the class.
pub fn trim(s: &str, class: CharClass) -> (r: String)
    ensures
        r@ == trim_of(s@, class),
{
    let chars = chars_of(s);
    let from: usize = first_kept(&chars, class);
    let to: usize = last_kept(&chars, from, class);
    slice_text(&chars, from, to)
}

/// The text without its trailing characters of the class.
pub fn trim_end(s: &str, class: CharClass) -> (r: String)
    ensures
        r@ == trim_end_of(s@, class),
{
    let chars = chars_of(s);
    let to: usize = last_kept(&chars, 0, class);
    assert(chars@.skip(0) =~= chars@);
    slice_text(&chars, 0, to)
}

// ---------------------------------------------------------------------------
// Searching and splitting
// ---------------------------------------------------------------------------
/// The index of the first `c`, or the length where there is none.
pub open spec fn first_index(s: Seq<char>, c: char) -> int
    decreases s.len(),
{
    if s.len() == 0 || s[0] == c {
        0
    } else {
        1 + first_index(s.drop_first(), c)
    }
}

pub proof fn lemma_first_index(s: Seq<char>, c: char)
    ensures
        0 <= first_index(s, c) <= s.len(),
        first_index(s, c) < s.len() ==> s[first_index(s, c)] == c,
        forall|j: int| 0 <= j < first_index(s, c) ==> s[j] != c,
    decreases s.len(),
{
    if s.len() > 0 && s[0] != c {
        lemma_first_index(s.drop_first(), c);
        assert forall|j: int| 0 <= j < first_index(s, c) implies s[j] != c by {
            if j > 0 {
                assert(s[j] == s.drop_first()[j - 1]);
            }
        }
    }
}

pub proof fn lemma_first_index_unique(s: Seq<char>, c: char, k: int)
    requires
        0 <= k <= s.len(),
        k < s.len() ==> s[k] == c,
        forall|j: int| 0 <= j < k ==> s[j] != c,
    ensures
        first_index(s, c) == k,
{
    lemma_first_index(s, c);
    let f = first_index(s, c);
    if f < k {
        assert(s[f] != c);
    }
}

/// The first index at or after `from` that holds `c`, or the length.
fn find_from(chars: &Vec<char>, from: usize, c: char) -> (r: usize)
    requires
        from <= chars@.len(),
    ensures
        from <= r <= chars@.len(),
        r == from + first_index(chars@.skip(from as int), c),
{
    let mut i: usize = from;
    while i < chars.len() && chars[i] != c
        invariant
            from <= i <= chars@.len(),
            forall|j: int| from <= j < i ==> chars@[j] != c,
        decreases chars.len() - i,
    {
        i = i + 1;
    }
    proof {
        let rest = chars@.skip(from as int);
        assert forall|j: int| 0 <= j < i - from implies rest[j] != c by {
            assert(rest[j] == chars@[from + j]);
        }
        lemma_first_index_unique(rest, c, i - from);
    }
    i
}

/// The pieces between the separators: one more than there are separators.
pub open spec fn split_of(s: Seq<char>, sep: char) -> Seq<Seq<char>>
    decreases s.len(),
    via split_of_decreases
{
    let k = first_index(s, sep);
    if k < s.len() {
        seq![s.take(k)] + split_of(s.skip(k + 1), sep)
    } else {
        seq![s]
    }
}

#[via_fn]
proof fn split_of_decreases(s: Seq<char>, sep: char) {
    lemma_first_index(s, sep);
}

/// The pieces of two texts with a separator between them are those of both.
pub proof fn lemma_split_join(a: Seq<char>, sep: char, b: Seq<char>)
    ensures
        split_of(a.push(sep) + b, sep) == split_of(a, sep) + split_of(b, sep),
    decreases a.len(),
{
    let all = a.push(sep) + b;
    let k = first_index(a, sep);
    lemma_first_index(a, sep);
    lemma_first_index_unique(all, sep, k);
    if k < a.len() {
        let rest = a.skip(k + 1);
        lemma_split_join(rest, sep, b);
        assert(all.skip(k + 1) =~= rest.push(sep) + b);
        assert(all.take(k) =~= a.take(k));
    } else {
        assert(all.take(k) =~= a);
        assert(all.skip(k + 1) =~= b);
    }
}

/// The pieces of the text between the separators.
pub fn split(s: &str, sep: char) -> (r: Vec<String>)
    ensures
        views(r@) == split_of(s@, sep),
{
    let chars = chars_of(s);
    let mut out: Vec<String> = Vec::new();
    let mut from: usize = 0;
    assert(chars@.skip(0) =~= chars@);
    assert(views(out@) + split_of(chars@, sep) =~= split_of(chars@, sep));
    loop
        invariant
            chars@ == s@,
            from <= chars@.len(),
            views(out@) + split_of(chars@.skip(from as int), sep) == split_of(s@, sep),
        decreases chars.len() - from,
    {
        let to: usize = find_from(&chars, from, sep);
        let piece = slice_text(&chars, from, to);
        let ghost before = out@;
        let ghost rest = chars@.skip(from as int);
        proof {
            lemma_views_push(before, piece);
            assert(rest.take(to - from) =~= chars@.subrange(from as int, to as int));
        }
        out.push(piece);
        if to >= chars.len() {
            assert(rest =~= rest.take(to - from));
            assert(views(before) + seq![rest] =~= views(before).push(rest));
            return out;
        }
        proof {
            assert(rest.skip(to - from + 1) =~= chars@.skip(to + 1));
            assert(views(before) + (seq![piece@] + split_of(chars@.skip(to + 1), sep)) =~= views(
                before,
            ).push(piece@) + split_of(chars@.skip(to + 1), sep));
        }
        from = to + 1;
    }
}

/// A line without the carriage return in front of its line feed.
pub open spec fn chomp(s: Seq<char>) -> Seq<char> {
    if s.len() > 0 && s.last() == '\r' {
        s.drop_last()
    } else {
        s
    }
}

/// The lines of a text: each ends at a line feed, which is left out together
/// with a carriage return in front of it; the last line needs no line feed.
pub open spec fn lines_of(s: Seq<char>) -> Seq<Seq<char>>
    decreases s.len(),
    via lines_of_decreases
{
    if s.len() == 0 {
        Seq::empty()
    } else {
        let k = first_index(s, '\n');
        if k < s.len() {
            seq![chomp(s.take(k))] + lines_of(s.skip(k + 1))
        } else {
            seq![s]
        }
    }
}

#[via_fn]
proof fn lines_of_decreases(s: Seq<char>) {
    lemma_first_index(s, '\n');
}

/// The lines of the text.
pub fn lines(s: &str) -> (r: Vec<String>)
    ensures
        views(r@) == lines_of(s@),
{
    let chars = chars_of(s);
    let mut out: Vec<String> = Vec::new();
    let mut from: usize = 0;
    assert(chars@.skip(0) =~= chars@);
    assert(views(out@) + lines_of(chars@) =~= lines_of(chars@));
    while from < chars.len()
        invariant
            chars@ == s@,
            from <= chars@.len(),
            views(out@) + lines_of(chars@.skip(from as int)) == lines_of(s@),
        decreases chars.len() - from,
    {
        let to: usize = find_from(&chars, from, '\n');
        let ghost before = out@;
        let ghost rest = chars@.skip(from as int);
        let cut: usize = if to < chars.len() && to > from && chars[to - 1] == '\r' {
            to - 1
        } else {
            to
        };
        let piece = slice_text(&chars, from, cut);
        proof {
            lemma_views_push(before, piece);
            assert(rest.take(to - from) =~= chars@.subrange(from as int, to as int));
            if to < chars.len() && to > from && chars@[to - 1] == '\r' {
                assert(rest.take(to - from).drop_last() =~= piece@);
            }
        }
        out.push(piece);
        if to >= chars.len() {
            proof {
                assert(rest =~= piece@);
                assert(lines_of(rest) == seq![rest]);
                assert(views(before) + seq![rest] =~= views(before).push(rest));
            }
            return out;
        }
        proof {
            assert(rest.skip(to - from + 1) =~= chars@.skip(to + 1));
            assert(views(before) + (seq![piece@] + lines_of(chars@.skip(to + 1))) =~= views(
                before,
            ).push(piece@) + lines_of(chars@.skip(to + 1)));
        }
        from = to + 1;
    }
    assert(chars@.skip(from as int).len() == 0);
    assert(views(out@) + Seq::<Seq<char>>::empty() =~= views(out@));
    out
}

/// Whether `pattern` stands in `text` at index `at`.
pub open spec fn occurs_at(text: Seq<char>, pattern: Seq<char>, at: int) -> bool {
    0 <= at && at + pattern.len() <= text.len() && text.subrange(at, at + pattern.len()) == pattern
}

/// Whether `pattern` stands somewhere in `text`.
pub open spec fn contains_text(text: Seq<char>, pattern: Seq<char>) -> bool {
    exists|at: int| occurs_at(text, pattern, at)
}

/// Whether the pattern stands somewhere in the text.
pub fn contains(text: &str, pattern: &str) -> (r: bool)
    ensures
        r == contains_text(text@, pattern@),
{
    let t = chars_of(text);
    let p = chars_of(pattern);
    if p.len() > t.len() {
        return false;
    }
    let last: usize = t.len() - p.len();
    let mut at: usize = 0;
    loop
        invariant
            t@ == text@,
            p@ == pattern@,
            at <= last == t.len() - p.len(),
            forall|j: int| 0 <= j < at ==> !occurs_at(t@, p@, j),
        decreases last - at,
    {
        let mut k: usize = 0;
        while k < p.len() && t[at + k] == p[k]
            invariant
                k <= p.len(),
                at + p.len() <= t.len(),
                forall|j: int| 0 <= j < k ==> t@[at + j] == p@[j],
            decreases p.len() - k,
        {
            k = k + 1;
        }
        if k == p.len() {
            assert(t@.subrange(at as int, at + p.len()) =~= p@);
            assert(occurs_at(t@, p@, at as int));
            return true;
        }
        assert(!occurs_at(t@, p@, at as int)) by {
            if occurs_at(t@, p@, at as int) {
                assert(t@.subrange(at as int, at + p.len())[k as int] == p@[k as int]);
            }
        }
        if at == last {
            return false;
        }
        at = at + 1;
    }
}

/// The pieces with the separator between each two of them.
pub open spec fn join_of(pieces: Seq<Seq<char>>, sep: Seq<char>) -> Seq<char>
    decreases pieces.len(),
{
    if pieces.len() == 0 {
        Seq::empty()
    } else if pieces.len() == 1 {
        pieces[0]
    } else {
        join_of(pieces.drop_last(), sep) + sep + pieces.last()
    }
}

/// The pieces with the separator between each two of them.
pub fn join(pieces: &Vec<String>, sep: &str) -> (r: String)
    ensures
        r@ == join_of(views(pieces@), sep@),
{
    let mut out = String::new();
    let mut i: usize = 0;
    let ghost all = views(pieces@);
    while i < pieces.len()
        invariant
            all == views(pieces@),
            i <= pieces.len(),
            out@ == join_of(all.take(i as int), sep@),
        decreases pieces.len() - i,
    {
        proof {
            assert(all.take(i + 1).drop_last() =~= all.take(i as int));
        }
        if i > 0 {
            out.append(sep);
        }
        out.append(pieces[i].as_str());
        proof {
            if i == 0 {
                assert(Seq::<char>::empty() + all[0] =~= all[0]);
            }
        }
        i = i + 1;
    }
    assert(all.take(all.len() as int) =~= all);
    out
}

// ---------------------------------------------------------------------------
// Numbers
// ---------------------------------------------------------------------------
pub open spec fn digit_char(d: int) -> char {
    (d + 48) as char
}

/// The decimal digits of a number, without leading zeros.
pub open spec fn decimal_text(n: nat) -> Seq<char>
    decreases n,
{
    if n < 10 {
        seq![digit_char(n as int)]
    } else {
        decimal_text(n / 10).push(digit_char((n % 10) as int))
    }
}

/// Appends the decimal digits of the number.
pub fn push_decimal(out: &mut String, n: u64)
    ensures
        final(out)@ == old(out)@ + decimal_text(n as nat),
    decreases n,
{
    if n >= 10 {
        push_decimal(out, n / 10);
    }
    let d: u8 = (n % 10) as u8;
    out.push((48 + d) as char);
}

/// The decimal digits of the number.
pub fn decimal(n: u64) -> (r: String)
    ensures
        r@ == decimal_text(n as nat),
{
    let mut out = String::new();
    push_decimal(&mut out, n);
    assert(Seq::<char>::empty() + decimal_text(n as nat) =~= decimal_text(n as nat));
    out
}

pub open spec fn all_digits(s: Seq<char>) -> bool {
    forall|i: int| 0 <= i < s.len() ==> ascii_digit(#[trigger] s[i])
}

/// The number that a sequence of decimal digits stands for.
pub open spec fn digits_value(s: Seq<char>) -> nat
    decreases s.len(),
{
    if s.len() == 0 {
        0
    } else {
        digits_value(s.drop_last()) * 10 + (s.last() as u32 - 48) as nat
    }
}

/// What a text reads as: an optional plus sign and at least one digit, and a
/// value that fits.
pub open spec fn number_of(s: Seq<char>) -> Option<u32> {
    let digits = if s.len() > 0 && s[0] == '+' {
        s.drop_first()
    } else {
        s
    };
    if digits.len() > 0 && all_digits(digits) && digits_value(digits) <= u32::MAX {
        Some(digits_value(digits) as u32)
    } else {
        None
    }
}

/// Reads a number; none where the text is not a number or does not fit.
pub fn parse_number(s: &str) -> (r: Option<u32>)
    ensures
        r == number_of(s@),
{
    let chars = chars_of(s);
    let from: usize = if chars.len() > 0 && chars[0] == '+' {
        1
    } else {
        0
    };
    let ghost digits = chars@.skip(from as int);
    proof {
        if from == 0 {
            assert(digits =~= s@);
        } else {
            assert(digits =~= s@.drop_first());
        }
    }
    if from == chars.len() {
        return None;
    }
    let mut value: u32 = 0;
    let mut i: usize = from;
    let mut fits: bool = true;
    while i < chars.len()
        invariant
            from <= i <= chars@.len(),
            digits == chars@.skip(from as int),
            digits == (if s@.len() > 0 && s@[0] == '+' {
                s@.drop_first()
            } else {
                s@
            }),
            all_digits(digits.take(i - from)),
            fits ==> value == digits_value(digits.take(i - from)),
            !fits ==> digits_value(digits.take(i - from)) > u32::MAX,
        decreases chars.len() - i,
    {
        let c = chars[i];
        let ghost done = digits.take(i - from);
        proof {
            assert(digits[i - from] == c);
            assert(digits.take(i - from + 1) =~= done.push(c));
            assert(done.push(c).drop_last() =~= done);
        }
        if c < '0' || '9' < c {
            assert(!ascii_digit(digits[i - from]));
            return None;
        }
        let d: u32 = c as u32 - 48;
        if fits {
            match value.checked_mul(10) {
                Some(tens) => match tens.checked_add(d) {
                    Some(next) => {
                        value = next;
                    },
                    None => {
                        fits = false;
                    },
                },
                None => {
                    fits = false;
                },
            }
        }
        i = i + 1;
        proof {
            assert(all_digits(digits.take(i - from))) by {
                assert forall|j: int| 0 <= j < i - from implies ascii_digit(
                    #[trigger] digits.take(i - from)[j],
                ) by {
                    if j < i - from - 1 {
                        assert(digits.take(i - from)[j] == done[j]);
                    }
                }
            }
        }
    }
    assert(digits.take(i - from) =~= digits);
    if fits {
        Some(value)
    } else {
        None
    }
}

// ---------------------------------------------------------------------------
// Padding and tabs
// ---------------------------------------------------------------------------
/// `n` spaces.
pub open spec fn spaces_of(n: nat) -> Seq<char> {
    Seq::new(n, |i: int| ' ')
}

/// Appends `n` spaces.
pub fn push_spaces(out: &mut String, n: usize)
    ensures
        final(out)@ == old(out)@ + spaces_of(n as nat),
{
    let ghost start = out@;
    let mut i: usize = 0;
    assert(start + spaces_of(0) =~= start);
    while i < n
        invariant
            i <= n,
            out@ == start + spaces_of(i as nat),
        decreases n - i,
    {
        out.push(' ');
        i = i + 1;
        assert((start + spaces_of((i - 1) as nat)).push(' ') =~= start + spaces_of(i as nat));
    }
}

/// `n` spaces.
pub fn spaces(n: usize) -> (r: String)
    ensures
        r@ == spaces_of(n as nat),
{
    let mut out = String::new();
    push_spaces(&mut out, n);
    assert(Seq::<char>::empty() + spaces_of(n as nat) =~= spaces_of(n as nat));
    out
}

/// How many characters are missing to a width.
pub open spec fn missing(len: nat, width: nat) -> nat {
    if len < width {
        (width - len) as nat
    } else {
        0
    }
}

/// The text, filled up with spaces at its end.
pub open spec fn pad_end_of(s: Seq<char>, width: nat) -> Seq<char> {
    s + spaces_of(missing(s.len(), width))
}

/// The text, filled up with spaces in front.
pub open spec fn pad_start_of(s: Seq<char>, width: nat) -> Seq<char> {
    spaces_of(missing(s.len(), width)) + s
}

/// The text, filled up with spaces at its end to the width.
pub fn pad_end(s: &str, width: usize) -> (r: String)
    ensures
        r@ == pad_end_of(s@, width as nat),
{
    let mut out = s.to_owned();
    let n: usize = char_count(s);
    if n < width {
        push_spaces(&mut out, width - n);
    } else {
        assert(s@ + spaces_of(0) =~= s@);
    }
    out
}

/// The text, filled up with spaces in front to the width.
pub fn pad_start(s: &str, width: usize) -> (r: String)
    ensures
        r@ == pad_start_of(s@, width as nat),
{
    let n: usize = char_count(s);
    let mut out = if n < width {
        spaces(width - n)
    } else {
        String::new()
    };
    assert(out@ =~= spaces_of(missing(s@.len(), width as nat)));
    out.append(s);
    out
}

/// The text with each tab replaced by `tab` spaces.
pub open spec fn expand_tabs(s: Seq<char>, tab: nat) -> Seq<char>
    decreases s.len(),
{
    if s.len() == 0 {
        Seq::empty()
    } else if s.last() == '\t' {
        expand_tabs(s.drop_last(), tab) + spaces_of(tab)
    } else {
        expand_tabs(s.drop_last(), tab).push(s.last())
    }
}

/// The text with each tab replaced by `tab` spaces.
pub fn tabs_to_spaces(s: &str, tab: usize) -> (r: String)
    ensures
        r@ == expand_tabs(s@, tab as nat),
{
    let chars = chars_of(s);
    let mut out = String::new();
    let mut i: usize = 0;
    while i < chars.len()
        invariant
            i <= chars@.len(),
            out@ == expand_tabs(chars@.take(i as int), tab as nat),
        decreases chars.len() - i,
    {
        assert(chars@.take(i + 1).drop_last() =~= chars@.take(i as int));
        if chars[i] == '\t' {
            push_spaces(&mut out, tab);
        } else {
            out.push(chars[i]);
        }
        i = i + 1;
    }
    assert(chars@.take(chars@.len() as int) =~= chars@);
    out
}

// ---------------------------------------------------------------------------
// Laws
// ---------------------------------------------------------------------------
/// The line ends are the line feed and the carriage return; of the ASCII
/// characters white space holds the blank and those from the tab to the carriage
/// return.
pub proof fn law_classes(c: char)
    ensures
        CharClass::Newline.has(c) <==> c == '\n' || c == '\r',
        CharClass::LineFeed.has(c) <==> c == '\n',
        c <= '\u{7f}' ==> (CharClass::WhiteSpace.has(c) <==> c == ' ' || '\t' <= c <= '\r'),
{
}

proof fn lemma_trim_start(front: Seq<char>, t: Seq<char>, class: CharClass)
    requires
        forall|i: int| 0 <= i < front.len() ==> class.has(#[trigger] front[i]),
        t.len() > 0 ==> !class.has(t[0]),
    ensures
        trim_start_of(front + t, class) == t,
    decreases front.len(),
{
    if front.len() == 0 {
        assert(front + t =~= t);
    } else {
        assert((front + t)[0] == front[0]);
        assert((front + t).drop_first() =~= front.drop_first() + t);
        assert forall|i: int| 0 <= i < front.len() - 1 implies class.has(
            #[trigger] front.drop_first()[i],
        ) by {
            assert(front.drop_first()[i] == front[i + 1]);
        }
        lemma_trim_start(front.drop_first(), t, class);
    }
}

pub proof fn lemma_trim_end(t: Seq<char>, back: Seq<char>, class: CharClass)
    requires
        forall|i: int| 0 <= i < back.len() ==> class.has(#[trigger] back[i]),
        t.len() > 0 ==> !class.has(t.last()),
    ensures
        trim_end_of(t + back, class) == t,
    decreases back.len(),
{
    if back.len() == 0 {
        assert(t + back =~= t);
    } else {
        assert((t + back).last() == back.last());
        assert(back.last() == back[back.len() - 1]);
        assert((t + back).drop_last() =~= t + back.drop_last());
        assert forall|i: int| 0 <= i < back.len() - 1 implies class.has(
            #[trigger] back.drop_last()[i],
        ) by {
            assert(back.drop_last()[i] == back[i]);
        }
        lemma_trim_end(t, back.drop_last(), class);
    }
}

/// What is left of a text once it is trimmed is a part of it.
pub proof fn lemma_trimmed_part(s: Seq<char>, class: CharClass)
    ensures
        forall|c: char| trim_of(s, class).contains(c) ==> #[trigger] s.contains(c),
        forall|c: char| trim_start_of(s, class).contains(c) ==> #[trigger] s.contains(c),
        forall|c: char| trim_end_of(s, class).contains(c) ==> #[trigger] s.contains(c),
    decreases s.len(),
{
    let start = trim_start_of(s, class);
    if s.len() > 0 && class.has(s.last()) {
        lemma_trimmed_part(s.drop_last(), class);
        assert forall|c: char| s.drop_last().contains(c) implies #[trigger] s.contains(c) by {
            let i = choose|i: int| 0 <= i < s.drop_last().len() && s.drop_last()[i] == c;
            assert(s[i] == c);
        }
    }
    if s.len() > 0 && class.has(s[0]) {
        lemma_trimmed_part(s.drop_first(), class);
        assert forall|c: char| s.drop_first().contains(c) implies #[trigger] s.contains(c) by {
            let i = choose|i: int| 0 <= i < s.drop_first().len() && s.drop_first()[i] == c;
            assert(s[i + 1] == c);
        }
    }
    if start.len() < s.len() {
        lemma_trimmed_part(start, class);
    }
}

/// Trimming takes off the characters of the class at both sides, all of them and
/// nothing else: whatever begins and ends with another character is left as it
/// is, with all that stands inside of it.
pub proof fn law_trim(front: Seq<char>, t: Seq<char>, back: Seq<char>, class: CharClass)
    requires
        forall|i: int| 0 <= i < front.len() ==> class.has(#[trigger] front[i]),
        forall|i: int| 0 <= i < back.len() ==> class.has(#[trigger] back[i]),
        t.len() > 0 ==> !class.has(t[0]) && !class.has(t.last()),
    ensures
        trim_of(front + t + back, class) == t,
        trim_end_of(t + back, class) == t,
{
    lemma_trim_end(t, back, class);
    assert(front + t + back =~= front + (t + back));
    if t.len() > 0 {
        assert((t + back)[0] == t[0]);
        lemma_trim_start(front, t + back, class);
    } else {
        let empty = Seq::<char>::empty();
        let all = front + back;
        assert(t + back =~= back);
        assert(all + empty =~= front + (t + back));
        assert forall|i: int| 0 <= i < all.len() implies class.has(#[trigger] all[i]) by {
            if i >= front.len() {
                assert(all[i] == back[i - front.len()]);
            }
        }
        lemma_trim_start(all, empty, class);
        assert(t =~= empty);
    }
}

proof fn lemma_join_first(first: Seq<char>, rest: Seq<Seq<char>>, sep: Seq<char>)
    requires
        rest.len() > 0,
    ensures
        join_of(seq![first] + rest, sep) == first + sep + join_of(rest, sep),
    decreases rest.len(),
{
    let all = seq![first] + rest;
    assert(all.last() == rest.last());
    if rest.len() == 1 {
        assert(all.drop_last() =~= seq![first]);
        assert(join_of(seq![first], sep) == first);
    } else {
        assert(all.drop_last() =~= seq![first] + rest.drop_last());
        lemma_join_first(first, rest.drop_last(), sep);
        assert(first + sep + join_of(rest.drop_last(), sep) + sep + rest.last() =~= first + sep + (
        join_of(rest.drop_last(), sep) + sep + rest.last()));
    }
}

/// The pieces of a text hold no separator, and with one between each two of them
/// they are the text again.
pub proof fn law_split_and_join(s: Seq<char>, sep: char)
    ensures
        split_of(s, sep).len() > 0,
        forall|i: int|
            0 <= i < split_of(s, sep).len() ==> !(#[trigger] split_of(s, sep)[i]).contains(sep),
        join_of(split_of(s, sep), seq![sep]) == s,
    decreases s.len(),
{
    let k = first_index(s, sep);
    lemma_first_index(s, sep);
    let pieces = split_of(s, sep);
    if k < s.len() {
        let rest = s.skip(k + 1);
        law_split_and_join(rest, sep);
        lemma_join_first(s.take(k), split_of(rest, sep), seq![sep]);
        assert(s.take(k) + seq![sep] + rest =~= s);
        assert forall|i: int| 0 <= i < pieces.len() implies !(#[trigger] pieces[i]).contains(
            sep,
        ) by {
            if i > 0 {
                assert(pieces[i] == split_of(rest, sep)[i - 1]);
            }
        }
    } else {
        assert(pieces =~= seq![s]);
    }
}

/// Joining puts the separator between two pieces, and nowhere else.
pub proof fn law_join(pieces: Seq<Seq<char>>, last: Seq<char>, sep: Seq<char>)
    ensures
        join_of(seq![last], sep) == last,
        pieces.len() > 0 ==> join_of(pieces.push(last), sep) == join_of(pieces, sep) + sep + last,
{
    assert(pieces.push(last).drop_last() =~= pieces);
}

/// A line feed ends a line, and a carriage return in front of it is left out; a
/// text behind the last line feed is a line of its own, where there is any. All
/// else stands in its line.
pub proof fn law_lines(line: Seq<char>, rest: Seq<char>)
    requires
        !line.contains('\n'),
    ensures
        line.len() > 0 ==> lines_of(line) == seq![line],
        lines_of(Seq::<char>::empty()).len() == 0,
        line.len() == 0 || line.last() != '\r' ==> lines_of(line.push('\n') + rest) == seq![line]
            + lines_of(rest),
        lines_of(line.push('\r').push('\n') + rest) == seq![line] + lines_of(rest),
{
    assert forall|j: int| 0 <= j < line.len() implies line[j] != '\n' by {
        assert(line.contains(line[j]));
    }
    lemma_first_index_unique(line, '\n', line.len() as int);
    let all = line.push('\n') + rest;
    lemma_first_index_unique(all, '\n', line.len() as int);
    assert(all.take(line.len() as int) =~= line);
    assert(all.skip(line.len() as int + 1) =~= rest);
    let cr = line.push('\r');
    let with_cr = cr.push('\n') + rest;
    lemma_first_index_unique(with_cr, '\n', cr.len() as int);
    assert(with_cr.take(cr.len() as int) =~= cr);
    assert(with_cr.skip(cr.len() as int + 1) =~= rest);
    assert(cr.drop_last() =~= line);
}

/// A text is found in another one exactly where that is made of something, the
/// text, and something.
pub proof fn law_contains(t: Seq<char>, pattern: Seq<char>, a: Seq<char>, b: Seq<char>)
    ensures
        contains_text(a + pattern + b, pattern),
        contains_text(t, pattern) ==> exists|front: Seq<char>, back: Seq<char>|
            t == #[trigger] (front + pattern + back),
{
    let all = a + pattern + b;
    assert(all.subrange(a.len() as int, a.len() as int + pattern.len()) =~= pattern);
    assert(occurs_at(all, pattern, a.len() as int));
    if contains_text(t, pattern) {
        let at = choose|at: int| occurs_at(t, pattern, at);
        let front = t.take(at);
        let back = t.skip(at + pattern.len());
        assert(t =~= front + pattern + back);
    }
}

/// A number is written in decimal digits, the last one being what ten leaves of
/// it, without a zero in front, and read back as the same number.
pub proof fn law_decimal(n: nat)
    ensures
        decimal_text(n).len() > 0,
        all_digits(decimal_text(n)),
        decimal_text(n).last() as u32 == 48 + n % 10,
        n < 10 <==> decimal_text(n).len() == 1,
        n >= 10 ==> decimal_text(n).drop_last() == decimal_text(n / 10),
        n > 0 ==> decimal_text(n)[0] != '0',
        digits_value(decimal_text(n)) == n,
        n <= u32::MAX ==> number_of(decimal_text(n)) == Some(n as u32),
    decreases n,
{
    if n >= 10 {
        law_decimal(n / 10);
        let before = decimal_text(n / 10);
        assert(decimal_text(n).drop_last() =~= before);
        assert(decimal_text(n)[0] == before[0]);
        assert forall|i: int| 0 <= i < decimal_text(n).len() implies ascii_digit(
            #[trigger] decimal_text(n)[i],
        ) by {
            if i < before.len() {
                assert(decimal_text(n)[i] == before[i]);
            }
        }
    } else {
        assert(decimal_text(n).drop_last() =~= Seq::<char>::empty());
        assert(digits_value(Seq::<char>::empty()) == 0);
    }
    assert(decimal_text(n)[0] != '+') by {
        assert(ascii_digit(decimal_text(n)[0]));
    }
}

/// A text with anything but digits behind an optional plus sign is no number,
/// and neither is one without digits.
pub proof fn law_no_number(s: Seq<char>, i: int)
    requires
        s.len() == 0 || (0 <= i < s.len() && !ascii_digit(s[i]) && (i > 0 || s[0] != '+')),
    ensures
        number_of(s) is None,
{
    if s.len() > 0 && s[0] == '+' {
        assert(s.drop_first()[i - 1] == s[i]);
    }
}

/// A plus sign in front of a number makes no difference.
pub proof fn law_plus_sign(s: Seq<char>)
    requires
        s.len() > 0,
        s[0] != '+',
    ensures
        number_of(seq!['+'] + s) == number_of(s),
{
    assert((seq!['+'] + s).drop_first() =~= s);
}

/// Padding fills a text up with blanks to the width, behind it or in front of
/// it, and leaves a longer one as it is.
pub proof fn law_padding(s: Seq<char>, width: nat)
    ensures
        pad_end_of(s, width).len() == if s.len() < width {
            width
        } else {
            s.len()
        },
        pad_start_of(s, width).len() == pad_end_of(s, width).len(),
        pad_end_of(s, width).take(s.len() as int) == s,
        pad_start_of(s, width).skip(pad_start_of(s, width).len() - s.len()) == s,
        forall|i: int|
            s.len() <= i < pad_end_of(s, width).len() ==> #[trigger] pad_end_of(s, width)[i] == ' ',
        forall|i: int|
            0 <= i < pad_start_of(s, width).len() - s.len() ==> #[trigger] pad_start_of(s, width)[i]
                == ' ',
        spaces_of(width).len() == width,
        forall|i: int| 0 <= i < width ==> #[trigger] spaces_of(width)[i] == ' ',
{
    assert(pad_end_of(s, width).take(s.len() as int) =~= s);
    assert(pad_start_of(s, width).skip(pad_start_of(s, width).len() - s.len()) =~= s);
}

/// Each tab becomes that many blanks, wherever it stands; a text without tabs is
/// left as it is.
pub proof fn law_tabs(a: Seq<char>, b: Seq<char>, tab: nat)
    requires
        !b.contains('\t'),
    ensures
        expand_tabs(b, tab) == b,
        expand_tabs(a + b, tab) == expand_tabs(a, tab) + b,
        expand_tabs(a.push('\t'), tab) == expand_tabs(a, tab) + spaces_of(tab),
    decreases b.len(),
{
    assert(a.push('\t').drop_last() =~= a);
    if b.len() == 0 {
        assert(a + b =~= a);
        assert(expand_tabs(a, tab) + b =~= expand_tabs(a, tab));
    } else {
        let front = b.drop_last();
        assert(b.contains(b.last())) by {
            assert(b[b.len() - 1] == b.last());
        }
        if front.contains('\t') {
            let i = choose|i: int| 0 <= i < front.len() && front[i] == '\t';
            assert(b[i] == '\t');
        }
        law_tabs(a, front, tab);
        assert((a + b).drop_last() =~= a + front);
        assert(front.push(b.last()) =~= b);
        assert((expand_tabs(a, tab) + front).push(b.last()) =~= expand_tabs(a, tab) + b);
    }
}

/// What a list shows is what each of its items shows, in their order; an optional text
/// shows the text, where there is one.
pub proof fn law_views<T: View>(items: Seq<T>, t: Option<String>, i: int)
    ensures
        views(items).len() == items.len(),
        0 <= i < items.len() ==> views(items)[i] == items[i]@,
        t is None <==> opt_text(t) is None,
        t matches Some(s) ==> opt_text(t) == Some(s@),
{
}

/// A text without the separator is one piece.
pub proof fn law_split_of_one(piece: Seq<char>, sep: char)
    requires
        !piece.contains(sep),
    ensures
        split_of(piece, sep) == seq![piece],
{
    law_split_and_join(piece, sep);
    let pieces = split_of(piece, sep);
    if pieces.len() > 1 {
        let front = join_of(pieces.drop_last(), seq![sep]);
        let all = front + seq![sep] + pieces.last();
        assert(join_of(pieces, seq![sep]) == all);
        assert(all[front.len() as int] == sep);
    }
    assert(pieces =~= seq![piece]);
}

/// The white space characters are those that Unicode names, in ASCII and outside of it.
pub proof fn law_white_space(c: char)
    ensures
        white_space(c) <==> (c == '\t' || c == '\n' || c == '\u{b}' || c == '\u{c}' || c == '\r' || c
            == ' ' || c == '\u{85}' || c == '\u{a0}' || c == '\u{1680}' || c == '\u{2000}' || c
            == '\u{2001}' || c == '\u{2002}' || c == '\u{2003}' || c == '\u{2004}' || c == '\u{2005}'
            || c == '\u{2006}' || c == '\u{2007}' || c == '\u{2008}' || c == '\u{2009}' || c
            == '\u{200a}' || c == '\u{2028}' || c == '\u{2029}' || c == '\u{202f}' || c == '\u{205f}'
            || c == '\u{3000}'),
        CharClass::WhiteSpace.has(c) == white_space(c),
{
}

/// Digits are read as the number that they write, with or without zeros in front, as far as
/// it fits into 32 bits; a larger number is none.
pub proof fn law_digits(s: Seq<char>, d: char)
    requires
        all_digits(s),
        '0' <= d <= '9',
    ensures
        digits_value(s.push(d)) == 10 * digits_value(s) + (d as int - 48),
        digits_value(Seq::empty()) == 0,
        s.len() > 0 && digits_value(s) <= u32::MAX ==> number_of(s) == Some(digits_value(s) as u32),
        s.len() > 0 && digits_value(s) > u32::MAX ==> number_of(s) is None,
{
    assert(s.push(d).drop_last() =~= s);
    if s.len() > 0 {
        assert(ascii_digit(s[0]));
    }
}

} // verus!
