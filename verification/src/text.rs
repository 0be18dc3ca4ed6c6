//! Character-level helpers over `str` and `String` views.
use vstd::prelude::*;

verus! {

/// The characters of `s`, in order.
pub fn chars_of(s: &str) -> (chars: Vec<char>)
    ensures
        chars@ == s@,
{
    let mut chars: Vec<char> = Vec::new();
    for c in it: s.chars()
        invariant
            chars@ == it.seq().take(it.index() as int),
            it.seq() == s@,
    {
        chars.push(c);
    }
    chars
}

/// Appends one character to a string.
#[verifier::external_body]
pub fn push_char(s: &mut String, c: char)
    ensures
        final(s)@ == old(s)@.push(c),
{
    s.push(c);
}

/// A string holding `chars[lo..hi]`.
pub fn string_from_range(chars: &Vec<char>, lo: usize, hi: usize) -> (s: String)
    requires
        lo <= hi <= chars@.len(),
    ensures
        s@ == chars@.subrange(lo as int, hi as int),
{
    let mut s = String::new();
    let mut i = lo;
    while i < hi
        invariant
            lo <= i <= hi <= chars@.len(),
            s@ == chars@.subrange(lo as int, i as int),
        decreases hi - i,
    {
        push_char(&mut s, chars[i]);
        i += 1;
    }
    s
}

/// A string holding all of `chars`.
pub fn string_from_chars(chars: &Vec<char>) -> (s: String)
    ensures
        s@ == chars@,
{
    let s = string_from_range(chars, 0, chars.len());
    assert(chars@.subrange(0, chars@.len() as int) =~= chars@);
    s
}

/// Appends `chars[lo..hi]` to `s`.
pub fn append_range(s: &mut String, chars: &Vec<char>, lo: usize, hi: usize)
    requires
        lo <= hi <= chars@.len(),
    ensures
        final(s)@ == old(s)@ + chars@.subrange(lo as int, hi as int),
{
    let mut i = lo;
    while i < hi
        invariant
            lo <= i <= hi <= chars@.len(),
            s@ == old(s)@ + chars@.subrange(lo as int, i as int),
        decreases hi - i,
    {
        push_char(s, chars[i]);
        proof {
            assert(chars@.subrange(lo as int, i + 1) =~= chars@.subrange(lo as int, i as int).push(chars@[i as int]));
        }
        i += 1;
    }
}

/// Appends all of `t` to `s`.
pub fn append_str(s: &mut String, t: &str)
    ensures
        final(s)@ == old(s)@ + t@,
{
    let chars = chars_of(t);
    append_range(s, &chars, 0, chars.len());
    assert(chars@.subrange(0, chars@.len() as int) =~= t@);
}

/// Whether two character sequences are equal.
pub fn chars_equal(a: &Vec<char>, b: &Vec<char>) -> (eq: bool)
    ensures
        eq == (a@ == b@),
{
    if a.len() != b.len() {
        return false;
    }
    let mut i: usize = 0;
    while i < a.len()
        invariant
            a@.len() == b@.len(),
            i <= a@.len(),
            forall|j: int| 0 <= j < i ==> a@[j] == b@[j],
        decreases a.len() - i,
    {
        if a[i] != b[i] {
            return false;
        }
        i += 1;
    }
    assert(a@ =~= b@);
    true
}

/// Whether `chars[lo..hi]` equals `t`.
pub fn range_equals(chars: &Vec<char>, lo: usize, hi: usize, t: &Vec<char>) -> (eq: bool)
    requires
        lo <= hi <= chars@.len(),
    ensures
        eq == (chars@.subrange(lo as int, hi as int) == t@),
{
    if hi - lo != t.len() {
        return false;
    }
    let mut i: usize = 0;
    while i < t.len()
        invariant
            hi - lo == t@.len(),
            lo <= hi <= chars@.len(),
            i <= t@.len(),
            forall|j: int| 0 <= j < i ==> chars@[lo + j] == t@[j],
        decreases t.len() - i,
    {
        if chars[lo + i] != t[i] {
            return false;
        }
        i += 1;
    }
    assert(chars@.subrange(lo as int, hi as int) =~= t@);
    true
}

/// Unicode `White_Space`, the property that `char::is_whitespace` tests.
pub open spec fn is_whitespace_char(c: char) -> bool {
    ||| ('\u{9}' <= c && c <= '\u{D}')
    ||| c == ' '
    ||| c == '\u{85}'
    ||| c == '\u{A0}'
    ||| c == '\u{1680}'
    ||| ('\u{2000}' <= c && c <= '\u{200A}')
    ||| c == '\u{2028}'
    ||| c == '\u{2029}'
    ||| c == '\u{202F}'
    ||| c == '\u{205F}'
    ||| c == '\u{3000}'
}

/// Whether `c` is Unicode white space.
pub fn is_whitespace(c: char) -> (b: bool)
    ensures
        b == is_whitespace_char(c),
{
    ('\u{9}' <= c && c <= '\u{D}') || c == ' ' || c == '\u{85}' || c == '\u{A0}' || c
        == '\u{1680}' || ('\u{2000}' <= c && c <= '\u{200A}') || c == '\u{2028}' || c
        == '\u{2029}' || c == '\u{202F}' || c == '\u{205F}' || c == '\u{3000}'
}

/// The number of bytes in the UTF-8 encoding of `c`.
pub open spec fn utf8_width(c: char) -> nat {
    let v = c as u32;
    if v <= 0x7F {
        1
    } else if v <= 0x7FF {
        2
    } else if v <= 0xFFFF {
        3
    } else {
        4
    }
}

/// The number of bytes in the UTF-8 encoding of `s`.
pub open spec fn utf8_len(s: Seq<char>) -> nat
    decreases s.len(),
{
    if s.len() == 0 {
        0
    } else {
        utf8_len(s.drop_last()) + utf8_width(s.last())
    }
}

/// The byte length of a character in UTF-8, as `char::len_utf8` gives it.
pub fn char_utf8_width(c: char) -> (w: usize)
    ensures
        w == utf8_width(c),
        1 <= w <= 4,
{
    let v = c as u32;
    if v <= 0x7F {
        1
    } else if v <= 0x7FF {
        2
    } else if v <= 0xFFFF {
        3
    } else {
        4
    }
}

pub proof fn lemma_utf8_len_front(s: Seq<char>)
    requires
        s.len() > 0,
    ensures
        utf8_len(s) == utf8_width(s[0]) + utf8_len(s.drop_first()),
    decreases s.len(),
{
    if s.len() > 1 {
        lemma_utf8_len_front(s.drop_last());
        assert(s.drop_last().drop_first() =~= s.drop_first().drop_last());
        assert(s.drop_first().last() == s.last());
        assert(s.drop_last()[0] == s[0]);
        assert(utf8_len(s.drop_first()) == utf8_len(s.drop_first().drop_last()) + utf8_width(
            s.drop_first().last(),
        ));
    } else {
        assert(s.drop_first().len() == 0);
        assert(s.drop_last().len() == 0);
        assert(utf8_len(s.drop_last()) == 0);
        assert(s.last() == s[0]);
    }
}

/// The UTF-8 byte length of a character sequence is the length of its encoding.
pub proof fn lemma_utf8_len_encode(s: Seq<char>)
    ensures
        utf8_len(s) == vstd::utf8::encode_utf8(s).len(),
    decreases s.len(),
{
    if s.len() > 0 {
        lemma_utf8_len_front(s);
        lemma_utf8_len_encode(s.drop_first());
        let v = s[0] as u32;
        vstd::utf8::char_is_scalar(s[0]);
    }
}

/// A prefix never encodes to more bytes than the whole.
pub proof fn lemma_utf8_len_prefix(s: Seq<char>, i: int)
    requires
        0 <= i <= s.len(),
    ensures
        utf8_len(s.take(i)) <= utf8_len(s),
    decreases s.len(),
{
    if i < s.len() {
        lemma_utf8_len_prefix(s.drop_last(), i);
        assert(s.drop_last().take(i) =~= s.take(i));
    } else {
        assert(s.take(i) =~= s);
    }
}

/// Extending a prefix by one character adds that character's width.
pub proof fn lemma_utf8_len_step(s: Seq<char>, i: int)
    requires
        0 <= i < s.len(),
    ensures
        utf8_len(s.take(i + 1)) == utf8_len(s.take(i)) + utf8_width(s[i]),
{
    assert(s.take(i + 1).drop_last() =~= s.take(i));
}

/// Whether `s` is exactly `lit`.
pub fn str_is(s: &str, lit: &str) -> (eq: bool)
    ensures
        eq == (s@ == lit@),
{
    let a = chars_of(s);
    let b = chars_of(lit);
    chars_equal(&a, &b)
}

/// The view of an optional string.
pub open spec fn opt_view(o: Option<String>) -> Option<Seq<char>> {
    match o {
        Some(s) => Some(s@),
        None => None,
    }
}

/// The decimal digit for `d`, which is below ten.
pub open spec fn digit_char(d: nat) -> char {
    if d == 0 { '0' } else if d == 1 { '1' } else if d == 2 { '2' } else if d == 3 { '3' }
    else if d == 4 { '4' } else if d == 5 { '5' } else if d == 6 { '6' } else if d == 7 { '7' }
    else if d == 8 { '8' } else { '9' }
}

/// The decimal rendering of `n`, without leading zeros.
pub open spec fn decimal(n: nat) -> Seq<char>
    decreases n,
{
    if n < 10 {
        seq![digit_char(n)]
    } else {
        decimal(n / 10).push(digit_char(n % 10))
    }
}

fn digit(d: u64) -> (c: char)
    requires
        d < 10,
    ensures
        c == digit_char(d as nat),
{
    if d == 0 { '0' } else if d == 1 { '1' } else if d == 2 { '2' } else if d == 3 { '3' }
    else if d == 4 { '4' } else if d == 5 { '5' } else if d == 6 { '6' } else if d == 7 { '7' }
    else if d == 8 { '8' } else { '9' }
}

/// Appends the decimal rendering of `n` to `s`, as `format!("{n}")` writes it.
pub fn append_decimal(s: &mut String, n: u64)
    ensures
        final(s)@ == old(s)@ + decimal(n as nat),
    decreases n,
{
    if n < 10 {
        push_char(s, digit(n));
        assert(decimal(n as nat) =~= seq![digit_char(n as nat)]);
    } else {
        append_decimal(s, n / 10);
        push_char(s, digit(n % 10));
        assert(decimal(n as nat) =~= decimal((n / 10) as nat).push(digit_char((n % 10) as nat)));
    }
}

/// The words of `s`: its maximal runs of non-whitespace characters, in order
/// (what `str::split_whitespace` yields).
pub open spec fn words_scan(s: Seq<char>) -> (Seq<Seq<char>>, Seq<char>)
    decreases s.len(),
{
    if s.len() == 0 {
        (Seq::empty(), Seq::empty())
    } else {
        let (done, current) = words_scan(s.drop_last());
        let c = s.last();
        if is_whitespace_char(c) {
            if current.len() > 0 {
                (done.push(current), Seq::empty())
            } else {
                (done, current)
            }
        } else {
            (done, current.push(c))
        }
    }
}

pub open spec fn words(s: Seq<char>) -> Seq<Seq<char>> {
    let (done, current) = words_scan(s);
    if current.len() > 0 {
        done.push(current)
    } else {
        done
    }
}

/// The words of `s` joined by single spaces.
pub open spec fn join_words(ws: Seq<Seq<char>>) -> Seq<char>
    decreases ws.len(),
{
    if ws.len() == 0 {
        Seq::empty()
    } else if ws.len() == 1 {
        ws[0]
    } else {
        join_words(ws.drop_last()) + seq![' '] + ws.last()
    }
}

/// The words of `s`, in order.
pub fn split_words(s: &str) -> (ws: Vec<String>)
    ensures
        ws@.map_values(|w: String| w@) == words(s@),
{
    let chars = chars_of(s);
    let mut ws: Vec<String> = Vec::new();
    let mut current: Vec<char> = Vec::new();
    let mut i: usize = 0;
    while i < chars.len()
        invariant
            chars@ == s@,
            i <= chars@.len(),
            (ws@.map_values(|w: String| w@), current@) == words_scan(chars@.take(i as int)),
        decreases chars.len() - i,
    {
        proof {
            assert(chars@.take(i + 1).drop_last() =~= chars@.take(i as int));
            assert(chars@.take(i + 1).last() == chars@[i as int]);
        }
        let c = chars[i];
        if is_whitespace(c) {
            if current.len() > 0 {
                let ghost before = ws@;
                ws.push(string_from_chars(&current));
                current = Vec::new();
                proof {
                    assert(ws@.map_values(|w: String| w@) =~= before.map_values(|w: String| w@).push(
                        ws@.last()@,
                    ));
                    assert(current@ =~= Seq::<char>::empty());
                }
            }
        } else {
            current.push(c);
        }
        i += 1;
    }
    assert(chars@.take(chars@.len() as int) =~= chars@);
    if current.len() > 0 {
        let ghost before = ws@;
        ws.push(string_from_chars(&current));
        assert(ws@.map_values(|w: String| w@) =~= before.map_values(|w: String| w@).push(ws@.last()@));
    }
    ws
}

/// Joins words with single spaces.
pub fn join_with_spaces(ws: &Vec<String>) -> (s: String)
    ensures
        s@ == join_words(ws@.map_values(|w: String| w@)),
{
    let mut s = String::new();
    let mut i: usize = 0;
    let ghost views = ws@.map_values(|w: String| w@);
    while i < ws.len()
        invariant
            i <= ws@.len(),
            views == ws@.map_values(|w: String| w@),
            s@ == join_words(views.take(i as int)),
        decreases ws.len() - i,
    {
        proof {
            assert(views.take(i + 1).drop_last() =~= views.take(i as int));
            assert(views.take(i + 1).last() == ws@[i as int]@);
        }
        if i > 0 {
            push_char(&mut s, ' ');
        } else {
            assert(views.take(1)[0] == ws@[0]@);
        }
        append_str(&mut s, ws[i].as_str());
        i += 1;
    }
    assert(views.take(ws@.len() as int) =~= views);
    s
}

/// The lowercase form of a string, as `str::to_lowercase` gives it.
pub uninterp spec fn lowercase_of(s: Seq<char>) -> Seq<char>;

/// `str::to_lowercase`.
#[verifier::external_body]
pub fn to_lowercase(s: &str) -> (lower: String)
    ensures
        lower@ == lowercase_of(s@),
{
    s.to_lowercase()
}

/// Whether `needle` occurs in `hay` at index `i`.
pub open spec fn occurs_at(hay: Seq<char>, needle: Seq<char>, i: int) -> bool {
    0 <= i && i + needle.len() <= hay.len() && hay.subrange(i, i + needle.len()) == needle
}

/// Whether `needle` occurs anywhere in `hay`.
pub open spec fn contains_seq(hay: Seq<char>, needle: Seq<char>) -> bool {
    exists|i: int| occurs_at(hay, needle, i)
}

/// Whether `needle` occurs in `hay` at index `i`.
pub fn occurs_at_exec(hay: &Vec<char>, needle: &Vec<char>, i: usize) -> (b: bool)
    ensures
        b == occurs_at(hay@, needle@, i as int),
{
    if i > hay.len() || needle.len() > hay.len() - i {
        return false;
    }
    range_equals(hay, i, i + needle.len(), needle)
}

/// Whether `needle` occurs anywhere in `hay`, as `str::contains` answers.
pub fn contains_chars(hay: &Vec<char>, needle: &Vec<char>) -> (b: bool)
    ensures
        b == contains_seq(hay@, needle@),
{
    if needle.len() > hay.len() {
        assert forall|i: int| !occurs_at(hay@, needle@, i) by {}
        return false;
    }
    let limit = hay.len() - needle.len();
    let mut i: usize = 0;
    while i < limit
        invariant
            needle@.len() <= hay@.len(),
            limit == hay@.len() - needle@.len(),
            i <= limit,
            forall|j: int| 0 <= j < i ==> !occurs_at(hay@, needle@, j),
        decreases limit - i,
    {
        if occurs_at_exec(hay, needle, i) {
            return true;
        }
        i += 1;
    }
    if occurs_at_exec(hay, needle, limit) {
        return true;
    }
    assert forall|j: int| !occurs_at(hay@, needle@, j) by {
        if 0 <= j < i {
        }
    }
    false
}

/// The length of `s` in UTF-8 bytes, as `str::len` gives it.
pub fn byte_len(s: &str) -> (n: usize)
    ensures
        n == utf8_len(s@),
{
    proof {
        lemma_utf8_len_encode(s@);
    }
    s.as_bytes().len()
}

/// ASCII lowercase of one character; other characters are unchanged.
pub open spec fn ascii_lower(c: char) -> char {
    if 'A' <= c && c <= 'Z' {
        ((c as u32) + 32) as char
    } else {
        c
    }
}

pub fn ascii_lower_exec(c: char) -> (l: char)
    ensures
        l == ascii_lower(c),
{
    if 'A' <= c && c <= 'Z' {
        ((c as u8) + 32) as char
    } else {
        c
    }
}

/// `str::to_ascii_lowercase`.
pub open spec fn ascii_lowercase(s: Seq<char>) -> Seq<char> {
    s.map_values(|c: char| ascii_lower(c))
}

pub fn to_ascii_lowercase(s: &str) -> (lower: Vec<char>)
    ensures
        lower@ == ascii_lowercase(s@),
{
    let chars = chars_of(s);
    let mut lower: Vec<char> = Vec::new();
    let mut i: usize = 0;
    while i < chars.len()
        invariant
            i <= chars@.len(),
            chars@ == s@,
            lower@ == ascii_lowercase(chars@.take(i as int)),
        decreases chars.len() - i,
    {
        lower.push(ascii_lower_exec(chars[i]));
        proof {
            assert(ascii_lowercase(chars@.take(i + 1)) =~= ascii_lowercase(chars@.take(i as int)).push(
                ascii_lower(chars@[i as int]),
            ));
        }
        i += 1;
    }
    assert(chars@.take(chars@.len() as int) =~= chars@);
    lower
}

/// `str::eq_ignore_ascii_case`.
pub open spec fn eq_ignore_ascii_case(a: Seq<char>, b: Seq<char>) -> bool {
    ascii_lowercase(a) == ascii_lowercase(b)
}

pub fn str_eq_ignore_ascii_case(a: &str, b: &str) -> (eq: bool)
    ensures
        eq == eq_ignore_ascii_case(a@, b@),
{
    let la = to_ascii_lowercase(a);
    let lb = to_ascii_lowercase(b);
    chars_equal(&la, &lb)
}

/// `str::starts_with` on characters.
pub open spec fn starts_with(s: Seq<char>, prefix: Seq<char>) -> bool {
    prefix.len() <= s.len() && s.take(prefix.len() as int) == prefix
}

pub fn chars_start_with(s: &Vec<char>, prefix: &str) -> (b: bool)
    ensures
        b == starts_with(s@, prefix@),
{
    let p = chars_of(prefix);
    if p.len() > s.len() {
        return false;
    }
    let r = range_equals(s, 0, p.len(), &p);
    assert(s@.take(p@.len() as int) =~= s@.subrange(0, p@.len() as int));
    r
}

/// Whether every character is whitespace, so that trimming leaves nothing.
pub open spec fn is_blank(s: Seq<char>) -> bool {
    forall|i: int| 0 <= i < s.len() ==> #[trigger] is_whitespace_char(s[i])
}

/// Whether `s.trim().is_empty()`.
pub fn trim_is_empty(s: &str) -> (b: bool)
    ensures
        b == is_blank(s@),
{
    let chars = chars_of(s);
    let mut i: usize = 0;
    while i < chars.len()
        invariant
            i <= chars@.len(),
            chars@ == s@,
            forall|j: int| 0 <= j < i ==> #[trigger] is_whitespace_char(chars@[j]),
        decreases chars.len() - i,
    {
        if !is_whitespace(chars[i]) {
            return false;
        }
        i += 1;
    }
    true
}

/// `s` without its leading whitespace.
pub open spec fn trim_start(s: Seq<char>) -> Seq<char>
    decreases s.len(),
{
    if s.len() > 0 && is_whitespace_char(s[0]) {
        trim_start(s.drop_first())
    } else {
        s
    }
}

/// `s` without its trailing whitespace.
pub open spec fn trim_end(s: Seq<char>) -> Seq<char>
    decreases s.len(),
{
    if s.len() > 0 && is_whitespace_char(s.last()) {
        trim_end(s.drop_last())
    } else {
        s
    }
}

/// `str::trim`: `s` without leading and trailing whitespace.
pub open spec fn trimmed(s: Seq<char>) -> Seq<char> {
    trim_end(trim_start(s))
}

/// `str::trim`, into a new string.
pub fn trim(s: &str) -> (t: String)
    ensures
        t@ == trimmed(s@),
{
    let chars = chars_of(s);
    let mut lo: usize = 0;
    assert(chars@.skip(0) =~= chars@);
    while lo < chars.len() && is_whitespace(chars[lo])
        invariant
            lo <= chars@.len(),
            chars@ == s@,
            trim_start(s@) == trim_start(chars@.skip(lo as int)),
        decreases chars.len() - lo,
    {
        assert(chars@.skip(lo as int).drop_first() =~= chars@.skip(lo + 1));
        lo += 1;
    }
    assert(trim_start(s@) == chars@.skip(lo as int));
    let mut hi: usize = chars.len();
    assert(chars@.subrange(lo as int, hi as int) =~= chars@.skip(lo as int));
    while hi > lo && is_whitespace(chars[hi - 1])
        invariant
            lo <= hi <= chars@.len(),
            chars@ == s@,
            trimmed(s@) == trim_end(chars@.subrange(lo as int, hi as int)),
        decreases hi - lo,
    {
        assert(chars@.subrange(lo as int, hi as int).drop_last() =~= chars@.subrange(lo as int, hi - 1));
        hi -= 1;
    }
    string_from_range(&chars, lo, hi)
}

/// Lexicographic order on characters, as `str`'s `Ord` compares.
pub open spec fn seq_less(a: Seq<char>, b: Seq<char>) -> bool
    decreases a.len(),
{
    if b.len() == 0 {
        false
    } else if a.len() == 0 {
        true
    } else if a[0] != b[0] {
        (a[0] as u32) < (b[0] as u32)
    } else {
        seq_less(a.drop_first(), b.drop_first())
    }
}

pub fn str_less(a: &str, b: &str) -> (lt: bool)
    ensures
        lt == seq_less(a@, b@),
{
    let ca = chars_of(a);
    let cb = chars_of(b);
    let mut i: usize = 0;
    assert(ca@.skip(0) =~= ca@);
    assert(cb@.skip(0) =~= cb@);
    while i < ca.len() && i < cb.len() && ca[i] == cb[i]
        invariant
            i <= ca@.len(),
            i <= cb@.len(),
            ca@ == a@,
            cb@ == b@,
            seq_less(a@, b@) == seq_less(ca@.skip(i as int), cb@.skip(i as int)),
        decreases ca.len() - i,
    {
        proof {
            assert(ca@.skip(i as int).drop_first() =~= ca@.skip(i + 1));
            assert(cb@.skip(i as int).drop_first() =~= cb@.skip(i + 1));
        }
        i += 1;
    }
    if i == cb.len() {
        assert(cb@.skip(i as int).len() == 0);
        false
    } else if i == ca.len() {
        assert(ca@.skip(i as int).len() == 0);
        true
    } else {
        assert(ca@.skip(i as int)[0] == ca@[i as int]);
        assert(cb@.skip(i as int)[0] == cb@[i as int]);
        (ca[i] as u32) < (cb[i] as u32)
    }
}

/// `seq_less` is transitive.
pub proof fn lemma_seq_less_transitive(a: Seq<char>, b: Seq<char>, c: Seq<char>)
    requires
        seq_less(a, b),
        seq_less(b, c),
    ensures
        seq_less(a, c),
    decreases a.len(),
{
    if a.len() > 0 && b.len() > 0 && c.len() > 0 && a[0] == b[0] && b[0] == c[0] {
        lemma_seq_less_transitive(a.drop_first(), b.drop_first(), c.drop_first());
    }
}

/// Of two different sequences, one is less than the other.
pub proof fn lemma_seq_less_total(a: Seq<char>, b: Seq<char>)
    requires
        a != b,
    ensures
        seq_less(a, b) || seq_less(b, a),
    decreases a.len(),
{
    if a.len() > 0 && b.len() > 0 && a[0] == b[0] {
        if a.drop_first() =~= b.drop_first() {
            assert(a =~= b) by {
                assert forall|i: int| 0 <= i < a.len() implies a[i] == b[i] by {
                    if i > 0 {
                        assert(a[i] == a.drop_first()[i - 1]);
                        assert(b[i] == b.drop_first()[i - 1]);
                    }
                }
            }
        } else {
            lemma_seq_less_total(a.drop_first(), b.drop_first());
        }
    } else if a.len() == 0 && b.len() == 0 {
        assert(a =~= b);
    } else if a.len() > 0 && b.len() > 0 {
        if (a[0] as u32) == (b[0] as u32) {
            vstd::utf8::char_u32_cast(a[0], a[0] as u32);
            vstd::utf8::char_u32_cast(b[0], b[0] as u32);
        }
    }
}

/// No sequence is less than itself.
pub proof fn lemma_seq_less_irreflexive(a: Seq<char>)
    ensures
        !seq_less(a, a),
    decreases a.len(),
{
    if a.len() > 0 {
        lemma_seq_less_irreflexive(a.drop_first());
    }
}

} // verus!
