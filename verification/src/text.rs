//! Text as sequences of characters: trimming, searching, splitting, joining and
//! number rendering, each with its meaning as a specification function.

use vstd::prelude::*;
use vstd::string::*;
use vstd::utf8::*;

verus! {

/// `String::push` appends one character.
pub assume_specification[ String::push ](s: &mut String, c: char)
    ensures
        final(s)@ == old(s)@.push(c),
;

/// The characters with the Unicode `White_Space` property.
pub open spec fn is_white_space(c: char) -> bool {
    let u = c as u32;
    ||| 0x09 <= u <= 0x0d
    ||| u == 0x20
    ||| u == 0x85
    ||| u == 0xa0
    ||| u == 0x1680
    ||| 0x2000 <= u <= 0x200a
    ||| u == 0x2028
    ||| u == 0x2029
    ||| u == 0x202f
    ||| u == 0x205f
    ||| u == 0x3000
}

/// The characters of the general category `Cc`.
pub open spec fn is_control_char(c: char) -> bool {
    let u = c as u32;
    u <= 0x1f || 0x7f <= u <= 0x9f
}

pub open spec fn is_digit(c: char) -> bool {
    '0' <= c <= '9'
}

pub open spec fn is_ascii_letter(c: char) -> bool {
    ('a' <= c <= 'z') || ('A' <= c <= 'Z')
}

pub open spec fn is_alphanumeric(c: char) -> bool {
    is_digit(c) || is_ascii_letter(c)
}

/// The lower-case form of an ASCII letter; every other character is kept.
pub open spec fn lower_char(c: char) -> char {
    if 'A' <= c <= 'Z' {
        ((c as u32 + 32) as u32) as char
    } else {
        c
    }
}

/// ASCII lower-casing of a text.
pub open spec fn lower(s: Seq<char>) -> Seq<char> {
    Seq::new(s.len(), |i: int| lower_char(s[i]))
}

pub open spec fn trim_start(s: Seq<char>) -> Seq<char>
    decreases s.len(),
{
    if s.len() > 0 && is_white_space(s[0]) {
        trim_start(s.drop_first())
    } else {
        s
    }
}

pub open spec fn trim_end(s: Seq<char>) -> Seq<char>
    decreases s.len(),
{
    if s.len() > 0 && is_white_space(s.last()) {
        trim_end(s.drop_last())
    } else {
        s
    }
}

/// The text without leading and trailing white space.
pub open spec fn trim(s: Seq<char>) -> Seq<char> {
    trim_end(trim_start(s))
}

/// `pat` stands in `s` at index `i`.
pub open spec fn occurs_at(s: Seq<char>, pat: Seq<char>, i: int) -> bool {
    &&& 0 <= i
    &&& i + pat.len() <= s.len()
    &&& s.subrange(i, i + pat.len()) == pat
}

/// The first index at or after `i` at which `pat` stands in `s`.
pub open spec fn find_from(s: Seq<char>, pat: Seq<char>, i: int) -> Option<int>
    decreases s.len() + 1 - i,
{
    if i < 0 || i + pat.len() > s.len() {
        None
    } else if occurs_at(s, pat, i) {
        Some(i)
    } else {
        find_from(s, pat, i + 1)
    }
}

/// The first index at which `pat` stands in `s`.
pub open spec fn find(s: Seq<char>, pat: Seq<char>) -> Option<int> {
    find_from(s, pat, 0)
}

pub open spec fn starts_with(s: Seq<char>, prefix: Seq<char>) -> bool {
    occurs_at(s, prefix, 0)
}

pub open spec fn ends_with(s: Seq<char>, suffix: Seq<char>) -> bool {
    occurs_at(s, suffix, s.len() - suffix.len())
}

pub open spec fn contains_text(s: Seq<char>, pat: Seq<char>) -> bool {
    exists|i: int| occurs_at(s, pat, i)
}

/// The first index of `c` in `s`, or the length of `s`.
pub open spec fn first_index(s: Seq<char>, c: char) -> int
    decreases s.len(),
{
    if s.len() == 0 || s[0] == c {
        0
    } else {
        1 + first_index(s.drop_first(), c)
    }
}

/// A line without the carriage return that ends it.
pub open spec fn without_carriage_return(line: Seq<char>) -> Seq<char> {
    if line.len() > 0 && line.last() == '\r' {
        line.drop_last()
    } else {
        line
    }
}

/// The lines of a text: it is cut after each line feed, the line feed and a
/// carriage return before it are left out, and there is no line after a final
/// line feed. A text that does not end in a line feed keeps its last line
/// unstripped.
pub open spec fn lines(s: Seq<char>) -> Seq<Seq<char>>
    decreases s.len(),
{
    if s.len() == 0 {
        seq![]
    } else {
        let i = first_index(s, '\n');
        if 0 <= i < s.len() {
            seq![without_carriage_return(s.subrange(0, i))] + lines(
                s.subrange(i + 1, s.len() as int),
            )
        } else {
            seq![s]
        }
    }
}

/// The parts, one after the other, with `sep` between them.
pub open spec fn join(parts: Seq<Seq<char>>, sep: Seq<char>) -> Seq<char>
    decreases parts.len(),
{
    if parts.len() == 0 {
        seq![]
    } else if parts.len() == 1 {
        parts[0]
    } else {
        join(parts.drop_last(), sep) + sep + parts.last()
    }
}

pub open spec fn digit_char(d: nat) -> char {
    ((48 + d) as u32) as char
}

/// The decimal digits of a number, without leading zeros.
pub open spec fn decimal(n: nat) -> Seq<char>
    decreases n,
{
    if n < 10 {
        seq![digit_char(n)]
    } else {
        decimal(n / 10).push(digit_char(n % 10))
    }
}

/// The number that a sequence of decimal digits stands for.
pub open spec fn decimal_value(s: Seq<char>) -> nat
    decreases s.len(),
{
    if s.len() == 0 {
        0
    } else {
        decimal_value(s.drop_last()) * 10 + (s.last() as u32 - 48) as nat
    }
}

pub open spec fn all_digits(s: Seq<char>) -> bool {
    forall|i: int| 0 <= i < s.len() ==> is_digit(#[trigger] s[i])
}

/// The number of bytes of the UTF-8 form of a text.
pub open spec fn byte_len(s: Seq<char>) -> nat {
    encode_utf8(s).len()
}

/// The views of a list of strings.
pub open spec fn texts(v: Seq<String>) -> Seq<Seq<char>> {
    Seq::new(v.len(), |i: int| v[i]@)
}

/// The view of an optional string.
pub open spec fn opt_text(v: Option<String>) -> Option<Seq<char>> {
    match v {
        Some(s) => Some(s@),
        None => None,
    }
}

pub fn white_space(c: char) -> (r: bool)
    ensures
        r == is_white_space(c),
{
    let u = c as u32;
    (0x09 <= u && u <= 0x0d) || u == 0x20 || u == 0x85 || u == 0xa0 || u == 0x1680 || (0x2000 <= u
        && u <= 0x200a) || u == 0x2028 || u == 0x2029 || u == 0x202f || u == 0x205f || u == 0x3000
}

pub fn control_char(c: char) -> (r: bool)
    ensures
        r == is_control_char(c),
{
    let u = c as u32;
    u <= 0x1f || (0x7f <= u && u <= 0x9f)
}

pub fn digit(c: char) -> (r: bool)
    ensures
        r == is_digit(c),
{
    '0' <= c && c <= '9'
}

pub fn alphanumeric(c: char) -> (r: bool)
    ensures
        r == is_alphanumeric(c),
{
    ('0' <= c && c <= '9') || ('a' <= c && c <= 'z') || ('A' <= c && c <= 'Z')
}

pub fn to_lower_char(c: char) -> (r: char)
    ensures
        r == lower_char(c),
{
    if 'A' <= c && c <= 'Z' {
        let u: u8 = c as u8;
        (u + 32) as char
    } else {
        c
    }
}

/// Two texts have the same characters.
pub fn same_text(a: &str, b: &str) -> (r: bool)
    ensures
        r == (a@ == b@),
{
    let x = a.as_bytes();
    let y = b.as_bytes();
    proof {
        encode_utf8_decode_utf8(a@);
        encode_utf8_decode_utf8(b@);
    }
    if x.len() != y.len() {
        return false;
    }
    let mut i: usize = 0;
    while i < x.len()
        invariant
            i <= x.len(),
            x.len() == y.len(),
            x@ == encode_utf8(a@),
            y@ == encode_utf8(b@),
            forall|k: int| 0 <= k < i ==> x@[k] == y@[k],
        decreases x.len() - i,
    {
        if x[i] != y[i] {
            return false;
        }
        i += 1;
    }
    assert(x@ =~= y@);
    true
}

/// The characters of a text.
pub fn chars_of(s: &str) -> (r: Vec<char>)
    ensures
        r@ == s@,
{
    let mut out: Vec<char> = Vec::new();
    for c in it: s.chars()
        invariant
            out@ == s@.take(it.index() as int),
            it.seq() == s@,
    {
        out.push(c);
        assert(s@.take(it.index() + 1) =~= s@.take(it.index() as int).push(c));
    }
    assert(s@.take(s@.len() as int) =~= s@);
    out
}

/// The characters of `cs` from `from` to `to`, as a string.
pub fn text_of_range(cs: &Vec<char>, from: usize, to: usize) -> (r: String)
    requires
        from <= to <= cs@.len(),
    ensures
        r@ == cs@.subrange(from as int, to as int),
{
    let mut out = String::new();
    let mut i: usize = from;
    while i < to
        invariant
            from <= i <= to <= cs@.len(),
            out@ == cs@.subrange(from as int, i as int),
        decreases to - i,
    {
        out.push(cs[i]);
        i += 1;
        assert(cs@.subrange(from as int, i as int) =~= cs@.subrange(from as int, i - 1).push(
            cs@[i - 1],
        ));
    }
    out
}

/// A list of characters as a string.
pub fn text_of(cs: &Vec<char>) -> (r: String)
    ensures
        r@ == cs@,
{
    let r = text_of_range(cs, 0, cs.len());
    assert(cs@.subrange(0, cs@.len() as int) =~= cs@);
    r
}

/// The number of bytes of the UTF-8 form of a text.
pub fn bytes_len(s: &str) -> (r: usize)
    ensures
        r == byte_len(s@),
{
    s.as_bytes().len()
}

proof fn lemma_trim_start_step(s: Seq<char>, i: int)
    requires
        0 <= i < s.len(),
        is_white_space(s[i]),
    ensures
        trim_start(s.subrange(i, s.len() as int)) == trim_start(
            s.subrange(i + 1, s.len() as int),
        ),
{
    assert(s.subrange(i, s.len() as int).drop_first() =~= s.subrange(i + 1, s.len() as int));
}

proof fn lemma_trim_end_step(s: Seq<char>, from: int, j: int)
    requires
        0 <= from < j <= s.len(),
        is_white_space(s[j - 1]),
    ensures
        trim_end(s.subrange(from, j)) == trim_end(s.subrange(from, j - 1)),
{
    assert(s.subrange(from, j).drop_last() =~= s.subrange(from, j - 1));
}

/// The index of the first character that is no white space.
pub fn start_of_trimmed(cs: &Vec<char>) -> (i: usize)
    ensures
        i <= cs@.len(),
        cs@.subrange(i as int, cs@.len() as int) == trim_start(cs@),
{
    let mut i: usize = 0;
    assert(cs@.subrange(0, cs@.len() as int) =~= cs@);
    while i < cs.len() && white_space(cs[i])
        invariant
            i <= cs@.len(),
            trim_start(cs@) == trim_start(cs@.subrange(i as int, cs@.len() as int)),
        decreases cs@.len() - i,
    {
        proof {
            lemma_trim_start_step(cs@, i as int);
        }
        i += 1;
    }
    i
}

/// The text without leading white space.
pub fn trimmed_start(s: &str) -> (r: String)
    ensures
        r@ == trim_start(s@),
{
    let cs = chars_of(s);
    let i = start_of_trimmed(&cs);
    text_of_range(&cs, i, cs.len())
}

/// The text without leading and trailing white space.
pub fn trimmed(s: &str) -> (r: String)
    ensures
        r@ == trim(s@),
{
    let cs = chars_of(s);
    let i = start_of_trimmed(&cs);
    let mut j: usize = cs.len();
    while j > i && white_space(cs[j - 1])
        invariant
            i <= j <= cs@.len(),
            trim_end(cs@.subrange(i as int, cs@.len() as int)) == trim_end(
                cs@.subrange(i as int, j as int),
            ),
        decreases j,
    {
        proof {
            lemma_trim_end_step(cs@, i as int, j as int);
        }
        j -= 1;
    }
    text_of_range(&cs, i, j)
}

/// ASCII lower-casing of a text.
pub fn lowered(s: &str) -> (r: String)
    ensures
        r@ == lower(s@),
{
    let cs = chars_of(s);
    let mut out = String::new();
    let mut i: usize = 0;
    while i < cs.len()
        invariant
            i <= cs@.len(),
            cs@ == s@,
            out@ == lower(s@).take(i as int),
        decreases cs@.len() - i,
    {
        out.push(to_lower_char(cs[i]));
        i += 1;
        assert(lower(s@).take(i as int) =~= lower(s@).take(i - 1).push(lower(s@)[i - 1]));
    }
    assert(lower(s@).take(i as int) =~= lower(s@));
    out
}

/// Whether `pat` stands in `cs` at index `i`.
pub fn stands_at(cs: &Vec<char>, pat: &Vec<char>, i: usize) -> (r: bool)
    ensures
        r == occurs_at(cs@, pat@, i as int),
{
    if i > cs.len() || pat.len() > cs.len() - i {
        return false;
    }
    let mut k: usize = 0;
    while k < pat.len()
        invariant
            k <= pat@.len(),
            i + pat@.len() <= cs.len(),
            forall|j: int| 0 <= j < k ==> cs@[i + j] == pat@[j],
        decreases pat@.len() - k,
    {
        if cs[i + k] != pat[k] {
            assert(cs@.subrange(i as int, i + pat@.len())[k as int] != pat@[k as int]);
            return false;
        }
        k += 1;
    }
    assert(cs@.subrange(i as int, i + pat@.len()) =~= pat@);
    true
}

/// The first index at or after `from` at which `pat` stands in `cs`.
pub fn index_from(cs: &Vec<char>, pat: &Vec<char>, from: usize) -> (r: Option<usize>)
    ensures
        match r {
            Some(i) => find_from(cs@, pat@, from as int) == Some(i as int) && from <= i && i
                + pat@.len() <= cs@.len(),
            None => find_from(cs@, pat@, from as int) is None,
        },
{
    let mut i: usize = from;
    while i <= cs.len() && pat.len() <= cs.len() - i
        invariant
            from <= i,
            find_from(cs@, pat@, from as int) == find_from(cs@, pat@, i as int),
        decreases cs@.len() + 1 - i,
    {
        if stands_at(cs, pat, i) {
            return Some(i);
        }
        if i == cs.len() {
            assert(find_from(cs@, pat@, i + 1) is None);
            return None;
        }
        i += 1;
    }
    None
}

/// What a search finds is the first occurrence.
pub proof fn lemma_find_from(s: Seq<char>, pat: Seq<char>, from: int)
    requires
        0 <= from,
    ensures
        match find_from(s, pat, from) {
            Some(i) => from <= i && occurs_at(s, pat, i) && forall|j: int|
                from <= j < i ==> !occurs_at(s, pat, j),
            None => forall|j: int| from <= j ==> !occurs_at(s, pat, j),
        },
    decreases s.len() + 1 - from,
{
    if from + pat.len() <= s.len() && !occurs_at(s, pat, from) {
        lemma_find_from(s, pat, from + 1);
    }
}

/// Whether `pat` stands anywhere in `s`.
pub fn text_contains(s: &str, pat: &str) -> (r: bool)
    ensures
        r == contains_text(s@, pat@),
{
    let cs = chars_of(s);
    let ps = chars_of(pat);
    proof {
        lemma_find_from(s@, pat@, 0);
    }
    match index_from(&cs, &ps, 0) {
        Some(_) => true,
        None => {
            assert(forall|j: int| occurs_at(s@, pat@, j) ==> 0 <= j);
            false
        },
    }
}

pub fn text_starts_with(s: &str, prefix: &str) -> (r: bool)
    ensures
        r == starts_with(s@, prefix@),
{
    let cs = chars_of(s);
    let ps = chars_of(prefix);
    stands_at(&cs, &ps, 0)
}

/// The text behind a prefix.
pub fn without_prefix(s: &str, prefix: &str) -> (r: Option<String>)
    ensures
        match r {
            Some(rest) => starts_with(s@, prefix@) && rest@ == s@.subrange(
                prefix@.len() as int,
                s@.len() as int,
            ),
            None => !starts_with(s@, prefix@),
        },
{
    let cs = chars_of(s);
    let ps = chars_of(prefix);
    if stands_at(&cs, &ps, 0) {
        Some(text_of_range(&cs, ps.len(), cs.len()))
    } else {
        None
    }
}

/// One text after another.
pub fn joined(a: &str, b: &str) -> (r: String)
    ensures
        r@ == a@ + b@,
{
    let mut out = a.to_owned();
    out.append(b);
    out
}

/// The decimal digits of a number.
pub fn decimal_text(n: u64) -> (r: String)
    ensures
        r@ == decimal(n as nat),
    decreases n,
{
    let d: u8 = (n % 10) as u8;
    let c: char = (48 + d) as char;
    if n < 10 {
        let mut out = String::new();
        out.push(c);
        assert(out@ =~= seq![digit_char(n as nat)]);
        out
    } else {
        let mut out = decimal_text(n / 10);
        out.push(c);
        out
    }
}

/// The parts, one after the other, with `sep` between them.
pub fn join_texts(parts: &Vec<String>, sep: &str) -> (r: String)
    ensures
        r@ == join(texts(parts@), sep@),
{
    let mut out = String::new();
    let mut i: usize = 0;
    while i < parts.len()
        invariant
            i <= parts@.len(),
            out@ == join(texts(parts@).take(i as int), sep@),
        decreases parts@.len() - i,
    {
        if i > 0 {
            out.append(sep);
        }
        out.append(parts[i].as_str());
        i += 1;
        assert(texts(parts@).take(i as int).drop_last() =~= texts(parts@).take(i - 1));
        assert(texts(parts@).take(i as int).last() == parts@[i - 1]@);
        if i == 1 {
            assert(out@ =~= parts@[0]@);
        }
    }
    assert(texts(parts@).take(i as int) =~= texts(parts@));
    out
}

pub proof fn lemma_first_index(s: Seq<char>, c: char)
    ensures
        0 <= first_index(s, c) <= s.len(),
        first_index(s, c) < s.len() <==> s.contains(c),
        first_index(s, c) < s.len() ==> s[first_index(s, c)] == c,
        forall|j: int| 0 <= j < first_index(s, c) ==> s[j] != c,
    decreases s.len(),
{
    if s.len() > 0 && s[0] != c {
        let t = s.drop_first();
        lemma_first_index(t, c);
        assert forall|j: int| 0 <= j < first_index(s, c) implies s[j] != c by {
            if j > 0 {
                assert(t[j - 1] == s[j]);
            }
        }
        if s.contains(c) {
            let k = choose|k: int| 0 <= k < s.len() && s[k] == c;
            assert(t[k - 1] == c);
        }
        if t.contains(c) {
            let k = choose|k: int| 0 <= k < t.len() && t[k] == c;
            assert(s[k + 1] == c);
        }
    }
}

/// The first index of `c` at or after `from`, or the length.
pub fn index_of_char(cs: &Vec<char>, from: usize, c: char) -> (r: usize)
    requires
        from <= cs@.len(),
    ensures
        from <= r <= cs@.len(),
        r - from == first_index(cs@.subrange(from as int, cs@.len() as int), c),
{
    let mut i: usize = from;
    while i < cs.len() && cs[i] != c
        invariant
            from <= i <= cs@.len(),
            first_index(cs@.subrange(from as int, cs@.len() as int), c) == i - from + first_index(
                cs@.subrange(i as int, cs@.len() as int),
                c,
            ),
        decreases cs@.len() - i,
    {
        assert(cs@.subrange(i as int, cs@.len() as int).drop_first() =~= cs@.subrange(
            i + 1,
            cs@.len() as int,
        ));
        i += 1;
    }
    i
}

/// The lines of a text.
pub fn lines_of(s: &str) -> (r: Vec<String>)
    ensures
        texts(r@) == lines(s@),
{
    let cs = chars_of(s);
    let n = cs.len();
    let mut out: Vec<String> = Vec::new();
    let mut i: usize = 0;
    assert(cs@.subrange(0, n as int) =~= s@);
    assert(texts(out@) =~= seq![]);
    while i < n
        invariant
            i <= n,
            n == cs@.len(),
            cs@ == s@,
            lines(s@) == texts(out@) + lines(cs@.subrange(i as int, n as int)),
        decreases n - i,
    {
        let ghost rest = cs@.subrange(i as int, n as int);
        let j = index_of_char(&cs, i, '\n');
        proof {
            lemma_first_index(rest, '\n');
        }
        let ghost before = texts(out@);
        if j == n {
            out.push(text_of_range(&cs, i, n));
            assert(texts(out@) =~= before + seq![rest]);
            assert(lines(s@) =~= texts(out@));
            return out;
        }
        let end: usize = if j > i && cs[j - 1] == '\r' {
            j - 1
        } else {
            j
        };
        out.push(text_of_range(&cs, i, end));
        proof {
            let first = rest.subrange(0, j - i);
            assert(first =~= cs@.subrange(i as int, j as int));
            assert(without_carriage_return(first) =~= cs@.subrange(i as int, end as int));
            let tail = rest.subrange(j - i + 1, rest.len() as int);
            assert(tail =~= cs@.subrange(j + 1, n as int));
            assert(texts(out@) =~= before + seq![without_carriage_return(first)]);
            assert(before + (seq![without_carriage_return(first)] + lines(tail)) =~= (before + seq![
                without_carriage_return(first),
            ]) + lines(tail));
        }
        i = j + 1;
    }
    assert(cs@.subrange(i as int, n as int) =~= seq![]);
    assert(lines(s@) =~= texts(out@));
    out
}

/// The number of bytes of the UTF-8 form of a character.
pub open spec fn char_width(c: char) -> nat {
    encode_scalar(c as u32).len()
}

pub fn width_of(c: char) -> (r: usize)
    ensures
        r == char_width(c),
        1 <= r <= 4,
{
    let u = c as u32;
    if u <= 0x7f {
        1
    } else if u <= 0x7ff {
        2
    } else if u <= 0xffff {
        3
    } else {
        4
    }
}

/// The UTF-8 form of two texts in a row is the UTF-8 form of the one, then that
/// of the other.
pub proof fn lemma_encode_concat(a: Seq<char>, b: Seq<char>)
    ensures
        encode_utf8(a + b) == encode_utf8(a) + encode_utf8(b),
    decreases a.len(),
{
    if a.len() == 0 {
        assert(a + b =~= b);
        assert(encode_utf8(a) + encode_utf8(b) =~= encode_utf8(b));
    } else {
        assert((a + b).drop_first() =~= a.drop_first() + b);
        lemma_encode_concat(a.drop_first(), b);
        assert(encode_utf8(a + b) =~= encode_utf8(a) + encode_utf8(b));
    }
}

pub proof fn lemma_byte_len_one(c: char)
    ensures
        byte_len(seq![c]) == char_width(c),
{
    assert(seq![c].drop_first() =~= Seq::<char>::empty());
    reveal_with_fuel(encode_utf8, 2);
}

/// The longest prefix of a text whose UTF-8 form has at most `max` bytes.
pub open spec fn bounded_prefix(s: Seq<char>, max: nat) -> Seq<char>
    decreases s.len(),
{
    if byte_len(s) <= max || s.len() == 0 {
        s
    } else {
        bounded_prefix(s.drop_last(), max)
    }
}

/// The longest suffix of a text whose UTF-8 form has at most `max` bytes.
pub open spec fn bounded_tail(s: Seq<char>, max: nat) -> Seq<char>
    decreases s.len(),
{
    if byte_len(s) <= max || s.len() == 0 {
        s
    } else {
        bounded_tail(s.drop_first(), max)
    }
}

/// A bounded prefix is a prefix, keeps the bound, and could not be longer by one
/// character.
pub proof fn law_bounded_prefix(s: Seq<char>, max: nat)
    ensures
        bounded_prefix(s, max).is_prefix_of(s),
        byte_len(bounded_prefix(s, max)) <= max,
        bounded_prefix(s, max).len() < s.len() ==> byte_len(
            s.take(bounded_prefix(s, max).len() as int + 1),
        ) > max,
    decreases s.len(),
{
    if byte_len(s) <= max || s.len() == 0 {
        assert(s.take(s.len() as int) =~= s);
    } else {
        let t = s.drop_last();
        law_bounded_prefix(t, max);
        let p = bounded_prefix(t, max);
        if p.len() < t.len() {
            assert(t.take(p.len() as int + 1) =~= s.take(p.len() as int + 1));
        } else {
            assert(p =~= t);
            assert(s.take(p.len() as int + 1) =~= s);
        }
    }
}

/// A bounded tail is a suffix, keeps the bound, and could not be longer by one
/// character.
pub proof fn law_bounded_tail(s: Seq<char>, max: nat)
    ensures
        bounded_tail(s, max).is_suffix_of(s),
        byte_len(bounded_tail(s, max)) <= max,
        bounded_tail(s, max).len() < s.len() ==> byte_len(
            s.skip(s.len() - bounded_tail(s, max).len() - 1),
        ) > max,
    decreases s.len(),
{
    if byte_len(s) <= max || s.len() == 0 {
        assert(s.skip(0) =~= s);
    } else {
        let t = s.drop_first();
        law_bounded_tail(t, max);
        let p = bounded_tail(t, max);
        if p.len() < t.len() {
            assert(t.skip(t.len() - p.len() - 1) =~= s.skip(s.len() - p.len() - 1));
        } else {
            assert(p =~= t);
            assert(s.skip(0) =~= s);
        }
    }
}

/// The longest suffix of `value` of at most `max_bytes` bytes that cuts no
/// character.
pub fn utf8_tail(value: &str, max_bytes: usize) -> (r: String)
    ensures
        r@ == bounded_tail(value@, max_bytes as nat),
{
    let cs = chars_of(value);
    let n = cs.len();
    let mut total: usize = bytes_len(value);
    let mut start: usize = 0;
    assert(value@.skip(0) =~= value@);
    while total > max_bytes
        invariant
            start <= n,
            n == cs@.len(),
            cs@ == value@,
            total == byte_len(value@.skip(start as int)),
            bounded_tail(value@, max_bytes as nat) == bounded_tail(
                value@.skip(start as int),
                max_bytes as nat,
            ),
        decreases n - start,
    {
        let ghost rest = value@.skip(start as int);
        assert(rest.len() > 0) by {
            if rest.len() == 0 {
                assert(rest =~= seq![]);
            }
        }
        let w = width_of(cs[start]);
        proof {
            assert(rest =~= seq![rest[0]] + rest.drop_first());
            lemma_encode_concat(seq![rest[0]], rest.drop_first());
            lemma_byte_len_one(rest[0]);
            assert(rest.drop_first() =~= value@.skip(start + 1));
        }
        total -= w;
        start += 1;
    }
    assert(value@.skip(start as int) =~= cs@.subrange(start as int, n as int));
    text_of_range(&cs, start, n)
}

/// The longest prefix of `value` of at most `max_bytes` bytes that cuts no
/// character.
pub fn utf8_prefix(value: &str, max_bytes: usize) -> (r: &str)
    ensures
        r@ == bounded_prefix(value@, max_bytes as nat),
{
    let cs = chars_of(value);
    let mut total: usize = bytes_len(value);
    let mut end: usize = cs.len();
    assert(value@.take(end as int) =~= value@);
    while total > max_bytes
        invariant
            end <= cs@.len(),
            cs@ == value@,
            total == byte_len(value@.take(end as int)),
            bounded_prefix(value@, max_bytes as nat) == bounded_prefix(
                value@.take(end as int),
                max_bytes as nat,
            ),
        decreases end,
    {
        let ghost rest = value@.take(end as int);
        assert(rest.len() > 0) by {
            if rest.len() == 0 {
                assert(rest =~= seq![]);
            }
        }
        let w = width_of(cs[end - 1]);
        proof {
            assert(rest =~= rest.drop_last() + seq![rest.last()]);
            lemma_encode_concat(rest.drop_last(), seq![rest.last()]);
            lemma_byte_len_one(rest.last());
            assert(rest.drop_last() =~= value@.take(end - 1));
        }
        total -= w;
        end -= 1;
    }
    assert(value@.take(end as int) =~= value@.subrange(0, end as int));
    value.substring_char(0, end)
}

/// Where a text stands in a suffix of another.
pub proof fn lemma_occurs_skip(s: Seq<char>, pat: Seq<char>, c: int, j: int)
    requires
        0 <= c <= s.len(),
        0 <= j,
    ensures
        occurs_at(s.skip(c), pat, j) == occurs_at(s, pat, c + j),
{
    if c + j + pat.len() <= s.len() {
        assert(s.skip(c).subrange(j, j + pat.len()) =~= s.subrange(c + j, c + j + pat.len()));
    }
}

/// Searching a suffix is searching the text from there on.
pub proof fn lemma_find_skip(s: Seq<char>, pat: Seq<char>, c: int)
    requires
        0 <= c <= s.len(),
    ensures
        match find(s.skip(c), pat) {
            Some(k) => find_from(s, pat, c) == Some(c + k),
            None => find_from(s, pat, c) is None,
        },
{
    lemma_find_from(s.skip(c), pat, 0);
    lemma_find_from(s, pat, c);
    match find(s.skip(c), pat) {
        Some(k) => {
            lemma_occurs_skip(s, pat, c, k);
            match find_from(s, pat, c) {
                Some(m) => {
                    lemma_occurs_skip(s, pat, c, m - c);
                },
                None => {},
            }
        },
        None => {
            match find_from(s, pat, c) {
                Some(m) => {
                    lemma_occurs_skip(s, pat, c, m - c);
                },
                None => {},
            }
        },
    }
}

/// What is found in a text is found at the same place when the text goes on.
pub proof fn lemma_find_in_longer(a: Seq<char>, b: Seq<char>, pat: Seq<char>)
    ensures
        find(a, pat) is Some ==> find(a + b, pat) == find(a, pat),
{
    lemma_find_from(a, pat, 0);
    lemma_find_from(a + b, pat, 0);
    match find(a, pat) {
        Some(i) => {
            assert((a + b).subrange(i, i + pat.len()) =~= a.subrange(i, i + pat.len()));
            assert(occurs_at(a + b, pat, i));
            match find(a + b, pat) {
                Some(k) => {
                    if k < i {
                        assert((a + b).subrange(k, k + pat.len()) =~= a.subrange(
                            k,
                            k + pat.len(),
                        ));
                        assert(occurs_at(a, pat, k));
                    }
                },
                None => {},
            }
        },
        None => {},
    }
}

/// The text with each occurrence of `pat`, from left to right, replaced.
pub open spec fn replaced(s: Seq<char>, pat: Seq<char>, with: Seq<char>) -> Seq<char>
    decreases s.len(),
    when pat.len() > 0
    via replaced_decreases
{
    match find(s, pat) {
        None => s,
        Some(i) => s.take(i) + with + replaced(s.skip(i + pat.len()), pat, with),
    }
}

#[via_fn]
proof fn replaced_decreases(s: Seq<char>, pat: Seq<char>, with: Seq<char>) {
    lemma_find_from(s, pat, 0);
}

/// Replaces each occurrence of `pat`.
pub fn replace_text(s: &str, pat: &str, with: &str) -> (r: String)
    requires
        pat@.len() > 0,
    ensures
        r@ == replaced(s@, pat@, with@),
{
    let cs = chars_of(s);
    let ps = chars_of(pat);
    let n = cs.len();
    let mut out = String::new();
    let mut from: usize = 0;
    assert(cs@.skip(0) =~= s@);
    assert(out@ + replaced(s@, pat@, with@) =~= replaced(s@, pat@, with@));
    loop
        invariant_except_break
            replaced(s@, pat@, with@) == out@ + replaced(cs@.skip(from as int), pat@, with@),
        invariant
            from <= n,
            n == cs@.len(),
            cs@ == s@,
            ps@ == pat@,
            pat@.len() > 0,
        ensures
            out@ == replaced(s@, pat@, with@),
        decreases n - from,
    {
        let ghost rest = cs@.skip(from as int);
        let ghost before = out@;
        proof {
            lemma_find_skip(cs@, pat@, from as int);
        }
        match index_from(&cs, &ps, from) {
            None => {
                out.append(text_of_range(&cs, from, n).as_str());
                assert(rest =~= cs@.subrange(from as int, n as int));
                break;
            },
            Some(i) => {
                out.append(text_of_range(&cs, from, i).as_str());
                out.append(with);
                proof {
                    assert(rest.take(i - from) =~= cs@.subrange(from as int, i as int));
                    assert(rest.skip(i - from + pat@.len()) =~= cs@.skip(i + pat@.len()));
                    let tail = replaced(cs@.skip(i + pat@.len()), pat@, with@);
                    assert(before + (rest.take(i - from) + with@ + tail) =~= out@ + tail);
                }
                from = i + ps.len();
            },
        }
    }
    out
}

/// A text that can be shown and compared as an identifier: white space around it
/// is left out; there is none if nothing is left, if it is longer than 256 bytes
/// or if it holds a control character.
pub open spec fn safe_identifier(s: Seq<char>) -> Option<Seq<char>> {
    let t = trim(s);
    if t.len() == 0 || byte_len(t) > 256 || (exists|i: int|
        0 <= i < t.len() && is_control_char(#[trigger] t[i])) {
        None
    } else {
        Some(t)
    }
}

/// Whether a text holds a control character.
pub fn has_control_char(s: &str) -> (r: bool)
    ensures
        r == exists|i: int| 0 <= i < s@.len() && is_control_char(#[trigger] s@[i]),
{
    let cs = chars_of(s);
    let mut i: usize = 0;
    while i < cs.len()
        invariant
            i <= cs@.len(),
            cs@ == s@,
            forall|k: int| 0 <= k < i ==> !is_control_char(#[trigger] s@[k]),
        decreases cs@.len() - i,
    {
        if control_char(cs[i]) {
            assert(is_control_char(s@[i as int]));
            return true;
        }
        i += 1;
    }
    false
}

pub fn safe_model_identifier(value: &str) -> (r: Option<String>)
    ensures
        opt_text(r) == safe_identifier(value@),
{
    let t = trimmed(value);
    if t.as_str().is_empty() || bytes_len(t.as_str()) > 256 || has_control_char(t.as_str()) {
        None
    } else {
        Some(t)
    }
}

proof fn lemma_trim_start_is_settled(s: Seq<char>)
    ensures
        trim_start(s).len() == 0 || !is_white_space(trim_start(s)[0]),
        trim_start(s).is_suffix_of(s),
    decreases s.len(),
{
    if s.len() > 0 && is_white_space(s[0]) {
        lemma_trim_start_is_settled(s.drop_first());
    }
}

proof fn lemma_trim_end_is_settled(s: Seq<char>)
    ensures
        trim_end(s).len() == 0 || !is_white_space(trim_end(s).last()),
        trim_end(s).is_prefix_of(s),
    decreases s.len(),
{
    if s.len() > 0 && is_white_space(s.last()) {
        lemma_trim_end_is_settled(s.drop_last());
    }
}

/// Trimming settles: a trimmed text has no white space left to trim.
pub proof fn law_trim_settles(s: Seq<char>)
    ensures
        trim(trim(s)) == trim(s),
{
    let a = trim_start(s);
    lemma_trim_start_is_settled(s);
    lemma_trim_end_is_settled(a);
    let b = trim_end(a);
    if b.len() > 0 {
        assert(b[0] == a[0]);
    }
    assert(trim_start(b) == b);
    assert(trim_end(b) == b);
}

/// An identifier that was found safe is found safe again, unchanged.
pub proof fn law_safe_identifier_settles(s: Seq<char>)
    ensures
        match safe_identifier(s) {
            Some(t) => safe_identifier(t) == Some(t),
            None => true,
        },
{
    law_trim_settles(s);
}

/// The number that a text stands for: decimal digits, after an optional plus
/// sign, of a number below two to the power 64.
pub open spec fn unsigned_value(s: Seq<char>) -> Option<u64> {
    let digits = if s.len() > 0 && s[0] == '+' {
        s.drop_first()
    } else {
        s
    };
    if digits.len() > 0 && all_digits(digits) && decimal_value(digits) <= u64::MAX {
        Some(decimal_value(digits) as u64)
    } else {
        None
    }
}

proof fn lemma_decimal_value_grows(s: Seq<char>, n: int)
    requires
        0 <= n <= s.len(),
        all_digits(s),
    ensures
        decimal_value(s.take(n)) <= decimal_value(s),
    decreases s.len(),
{
    if n == s.len() {
        assert(s.take(n) =~= s);
    } else {
        assert(s.drop_last().take(n) =~= s.take(n));
        lemma_decimal_value_grows(s.drop_last(), n);
    }
}

/// Reads a number.
pub fn parse_u64(s: &str) -> (r: Option<u64>)
    ensures
        r == unsigned_value(s@),
{
    let cs = chars_of(s);
    let from: usize = if cs.len() > 0 && cs[0] == '+' {
        1
    } else {
        0
    };
    let ghost digits = s@.skip(from as int);
    proof {
        if from == 1 {
            assert(digits =~= s@.drop_first());
        } else {
            assert(digits =~= s@);
        }
    }
    if from >= cs.len() {
        return None;
    }
    let mut value: u64 = 0;
    let mut i: usize = from;
    assert(digits.take(0) =~= seq![]);
    while i < cs.len()
        invariant
            from <= i <= cs@.len(),
            cs@ == s@,
            digits == s@.skip(from as int),
            forall|k: int| 0 <= k < i - from ==> is_digit(#[trigger] digits[k]),
            value == decimal_value(digits.take(i - from)),
            unsigned_value(s@) == if digits.len() > 0 && all_digits(digits) && decimal_value(digits)
                <= u64::MAX {
                Some(decimal_value(digits) as u64)
            } else {
                None
            },
        decreases cs@.len() - i,
    {
        let c = cs[i];
        if !digit(c) {
            assert(digits[i - from] == c);
            return None;
        }
        let d: u64 = c as u64 - 48;
        proof {
            assert(digits.take(i + 1 - from).drop_last() =~= digits.take(i - from));
            assert(digits.take(i + 1 - from).last() == c);
            assert(decimal_value(digits.take(i + 1 - from)) == value * 10 + d);
            if all_digits(digits) {
                lemma_decimal_value_grows(digits, i + 1 - from);
            }
        }
        if value > (u64::MAX - d) / 10 {
            return None;
        }
        value = value * 10 + d;
        i += 1;
    }
    assert(digits.take(i - from) =~= digits);
    Some(value)
}

/// The decimal digits of a number stand for it.
pub proof fn law_decimal_reads_back(n: nat)
    ensures
        decimal(n).len() > 0,
        all_digits(decimal(n)),
        decimal_value(decimal(n)) == n,
    decreases n,
{
    if n >= 10 {
        law_decimal_reads_back(n / 10);
        assert(decimal(n).drop_last() =~= decimal(n / 10));
    } else {
        let d = decimal(n);
        assert(d.drop_last() =~= seq![]);
        assert(decimal_value(d.drop_last()) == 0);
    }
}

} // verus!
