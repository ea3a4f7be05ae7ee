//! Text as sequences of characters.

use vstd::prelude::*;

verus! {

/// `String::push` appends the given character and changes nothing else.
pub assume_specification[ String::push ](s: &mut String, c: char)
    ensures
        final(s)@ == old(s)@.push(c),
;

/// The characters of a text.
pub fn chars_of(s: &str) -> (v: Vec<char>)
    ensures
        v@ == s@,
{
    let mut v: Vec<char> = Vec::new();
    for c in it: s.chars()
        invariant
            it.seq() == s@,
            v@ == s@.take(it.index()),
    {
        v.push(c);
        proof {
            assert(s@.take(it.index() + 1) == s@.take(it.index()).push(c));
        }
    }
    proof {
        assert(s@.take(s@.len() as int) == s@);
    }
    v
}

/// The text made of the characters `v[from..to]`.
pub fn text_of_range(v: &Vec<char>, from: usize, to: usize) -> (s: String)
    requires
        from <= to <= v@.len(),
    ensures
        s@ == v@.subrange(from as int, to as int),
{
    let mut s = String::new();
    let mut i: usize = from;
    while i < to
        invariant
            from <= i <= to <= v@.len(),
            s@ == v@.subrange(from as int, i as int),
        decreases to - i,
    {
        s.push(v[i]);
        proof {
            assert(v@.subrange(from as int, i + 1) == v@.subrange(from as int, i as int).push(v@[i as int]));
        }
        i = i + 1;
    }
    s
}

/// The text made of the characters `v`.
pub fn text_of(v: &Vec<char>) -> (s: String)
    ensures
        s@ == v@,
{
    let s = text_of_range(v, 0, v.len());
    proof {
        assert(v@.subrange(0, v@.len() as int) == v@);
    }
    s
}

/// Whether two character vectors agree.
pub fn same_chars(a: &Vec<char>, b: &Vec<char>) -> (r: bool)
    ensures
        r == (a@ == b@),
{
    if a.len() != b.len() {
        return false;
    }
    let mut i: usize = 0;
    while i < a.len()
        invariant
            i <= a@.len(),
            a@.len() == b@.len(),
            forall|j: int| 0 <= j < i ==> a@[j] == b@[j],
        decreases a@.len() - i,
    {
        if a[i] != b[i] {
            return false;
        }
        i = i + 1;
    }
    proof {
        assert(a@ =~= b@);
    }
    true
}

/// Whether two texts hold the same characters.
pub fn same(a: &str, b: &str) -> (r: bool)
    ensures
        r == (a@ == b@),
{
    same_chars(&chars_of(a), &chars_of(b))
}

/// Whether `s` begins with `p`.
pub open spec fn begins(s: Seq<char>, p: Seq<char>) -> bool {
    p.len() <= s.len() && s.take(p.len() as int) == p
}

/// Whether `p` occurs in `s` at index `i`.
pub open spec fn occurs_at(s: Seq<char>, p: Seq<char>, i: int) -> bool {
    0 <= i && i + p.len() <= s.len() && s.subrange(i, i + p.len()) == p
}

/// Whether `p` occurs somewhere in `s`.
pub open spec fn occurs(s: Seq<char>, p: Seq<char>) -> bool {
    exists|i: int| occurs_at(s, p, i)
}

/// Whether the pattern stands in the text at the given index.
pub fn matches_at(s: &Vec<char>, p: &Vec<char>, at: usize) -> (r: bool)
    ensures
        r == occurs_at(s@, p@, at as int),
{
    if p.len() > s.len() || at > s.len() - p.len() {
        return false;
    }
    let mut j: usize = 0;
    while j < p.len()
        invariant
            j <= p@.len(),
            at + p.len() <= s.len(),
            forall|k: int| 0 <= k < j ==> s@[at + k] == p@[k],
        decreases p@.len() - j,
    {
        if s[at + j] != p[j] {
            proof {
                assert(s@.subrange(at as int, at + p@.len())[j as int] != p@[j as int]);
            }
            return false;
        }
        j = j + 1;
    }
    proof {
        assert(s@.subrange(at as int, at + p@.len()) =~= p@);
    }
    true
}

/// Whether a text begins with another.
pub fn starts_with(s: &str, p: &str) -> (r: bool)
    ensures
        r == begins(s@, p@),
{
    let sv = chars_of(s);
    let pv = chars_of(p);
    let r = matches_at(&sv, &pv, 0);
    proof {
        if p@.len() <= s@.len() {
            assert(s@.subrange(0, p@.len() as int) == s@.take(p@.len() as int));
        }
    }
    r
}

/// Whether a text holds another.
pub fn contains(s: &str, p: &str) -> (r: bool)
    ensures
        r == occurs(s@, p@),
{
    let sv = chars_of(s);
    let pv = chars_of(p);
    let mut i: usize = 0;
    while i < sv.len()
        invariant
            i <= sv@.len(),
            sv@ == s@,
            pv@ == p@,
            forall|k: int| 0 <= k < i ==> !occurs_at(s@, p@, k),
        decreases sv@.len() - i,
    {
        if matches_at(&sv, &pv, i) {
            return true;
        }
        i = i + 1;
    }
    let last = matches_at(&sv, &pv, i);
    proof {
        if !last && occurs(s@, p@) {
            let k = choose|k: int| occurs_at(s@, p@, k);
            assert(k <= s@.len());
        }
    }
    last
}

/// A text without the prefix, where it begins with it.
pub open spec fn stripped(s: Seq<char>, p: Seq<char>) -> Option<Seq<char>> {
    if begins(s, p) {
        Some(s.skip(p.len() as int))
    } else {
        None
    }
}

/// The text behind the prefix, where the text begins with it.
pub fn strip_prefix(s: &str, p: &str) -> (r: Option<String>)
    ensures
        r.deep_view() == stripped(s@, p@),
{
    if starts_with(s, p) {
        let v = chars_of(s);
        let n = chars_of(p).len();
        let t = text_of_range(&v, n, v.len());
        proof {
            assert(s@.subrange(p@.len() as int, s@.len() as int) == s@.skip(p@.len() as int));
        }
        Some(t)
    } else {
        None
    }
}

/// The concatenation of two texts.
pub fn join2(a: &str, b: &str) -> (r: String)
    ensures
        r@ == a@ + b@,
{
    let mut r = a.to_owned();
    r.append(b);
    r
}

/// The concatenation of three texts.
pub fn join3(a: &str, b: &str, c: &str) -> (r: String)
    ensures
        r@ == a@ + b@ + c@,
{
    let mut r = a.to_owned();
    r.append(b);
    r.append(c);
    r
}

/// The characters with the Unicode property `White_Space`.
pub open spec fn is_space(c: char) -> bool {
    ||| '\u{9}' <= c <= '\u{d}'
    ||| c == ' '
    ||| c == '\u{85}'
    ||| c == '\u{a0}'
    ||| c == '\u{1680}'
    ||| '\u{2000}' <= c <= '\u{200a}'
    ||| c == '\u{2028}'
    ||| c == '\u{2029}'
    ||| c == '\u{202f}'
    ||| c == '\u{205f}'
    ||| c == '\u{3000}'
}

/// Whether a character is white space.
pub fn space(c: char) -> (r: bool)
    ensures
        r == is_space(c),
{
    ('\u{9}' <= c && c <= '\u{d}') || c == ' ' || c == '\u{85}' || c == '\u{a0}' || c == '\u{1680}'
        || ('\u{2000}' <= c && c <= '\u{200a}') || c == '\u{2028}' || c == '\u{2029}' || c
        == '\u{202f}' || c == '\u{205f}' || c == '\u{3000}'
}

/// A text without its leading white space.
pub open spec fn trimmed_start(s: Seq<char>) -> Seq<char>
    decreases s.len(),
{
    if s.len() > 0 && is_space(s[0]) {
        trimmed_start(s.skip(1))
    } else {
        s
    }
}

/// A text without its trailing white space.
pub open spec fn trimmed_end(s: Seq<char>) -> Seq<char>
    decreases s.len(),
{
    if s.len() > 0 && is_space(s.last()) {
        trimmed_end(s.drop_last())
    } else {
        s
    }
}

/// A text without white space at either end.
pub open spec fn trimmed(s: Seq<char>) -> Seq<char> {
    trimmed_end(trimmed_start(s))
}

fn trim_start_chars(v: &Vec<char>) -> (i: usize)
    ensures
        i <= v@.len(),
        v@.skip(i as int) == trimmed_start(v@),
{
    let mut i: usize = 0;
    proof {
        assert(v@.skip(0) == v@);
    }
    while i < v.len() && space(v[i])
        invariant
            i <= v@.len(),
            trimmed_start(v@.skip(i as int)) == trimmed_start(v@),
        decreases v@.len() - i,
    {
        proof {
            assert(v@.skip(i as int).skip(1) == v@.skip(i + 1));
        }
        i = i + 1;
    }
    i
}

/// The text without its leading white space.
pub fn trim_start(s: &str) -> (r: String)
    ensures
        r@ == trimmed_start(s@),
{
    let v = chars_of(s);
    let i = trim_start_chars(&v);
    let r = text_of_range(&v, i, v.len());
    proof {
        assert(v@.subrange(i as int, v@.len() as int) == v@.skip(i as int));
    }
    r
}

/// The text without white space at either end.
pub fn trim(s: &str) -> (r: String)
    ensures
        r@ == trimmed(s@),
{
    let v = chars_of(s);
    let i = trim_start_chars(&v);
    let mut j: usize = v.len();
    proof {
        assert(v@.subrange(i as int, j as int) == v@.skip(i as int));
    }
    while i < j && space(v[j - 1])
        invariant
            i <= j <= v@.len(),
            trimmed_end(v@.subrange(i as int, j as int)) == trimmed(v@),
        decreases j,
    {
        proof {
            assert(v@.subrange(i as int, j as int).drop_last() == v@.subrange(i as int, j - 1));
            assert(v@.subrange(i as int, j as int).last() == v@[j - 1]);
        }
        j = j - 1;
    }
    proof {
        if i < j {
            assert(v@.subrange(i as int, j as int).last() == v@[j - 1]);
        }
    }
    text_of_range(&v, i, j)
}

/// The parts of a text between the separators.
pub open spec fn split(s: Seq<char>, sep: char) -> Seq<Seq<char>>
    decreases s.len(),
{
    if s.len() == 0 {
        seq![Seq::empty()]
    } else {
        let r = split(s.drop_last(), sep);
        if s.last() == sep {
            r.push(Seq::empty())
        } else {
            r.drop_last().push(r.last().push(s.last()))
        }
    }
}

/// A split has at least one part.
pub proof fn lemma_split_nonempty(s: Seq<char>, sep: char)
    ensures
        split(s, sep).len() >= 1,
    decreases s.len(),
{
    if s.len() > 0 {
        lemma_split_nonempty(s.drop_last(), sep);
    }
}

/// The parts of the text between the separators.
pub fn split_at_each(s: &str, sep: char) -> (r: Vec<String>)
    ensures
        r.deep_view() == split(s@, sep),
        r@.len() >= 1,
{
    let v = chars_of(s);
    let mut r: Vec<String> = Vec::new();
    let mut part = String::new();
    let mut i: usize = 0;
    proof {
        assert(v@.take(0) == Seq::<char>::empty());
        assert(r.deep_view().push(part@) =~= seq![Seq::<char>::empty()]);
    }
    while i < v.len()
        invariant
            i <= v@.len(),
            r.deep_view().push(part@) == split(v@.take(i as int), sep),
        decreases v@.len() - i,
    {
        let ghost before = r.deep_view();
        let ghost part0 = part@;
        proof {
            assert(v@.take(i + 1).drop_last() == v@.take(i as int));
            assert(v@.take(i + 1).last() == v@[i as int]);
            assert(before.push(part0).drop_last() == before);
        }
        let c = v[i];
        if c == sep {
            r.push(part);
            part = String::new();
            proof {
                assert(r.deep_view() =~= before.push(part0));
            }
        } else {
            part.push(c);
        }
        i = i + 1;
    }
    let ghost before = r.deep_view();
    let ghost part0 = part@;
    r.push(part);
    proof {
        assert(r.deep_view() =~= before.push(part0));
        assert(v@.take(i as int) == v@);
    }
    r
}

/// A line without the carriage return that precedes its line feed.
pub open spec fn without_return(line: Seq<char>) -> Seq<char> {
    if line.len() > 0 && line.last() == '\r' {
        line.drop_last()
    } else {
        line
    }
}

/// The lines of a text: what stands before each line feed, less a carriage
/// return directly before it, and what follows the last line feed unless that
/// is empty.
pub open spec fn lines(s: Seq<char>) -> Seq<Seq<char>> {
    let parts = split(s, '\n');
    let ended = parts.drop_last().map_values(|l: Seq<char>| without_return(l));
    if parts.last().len() == 0 {
        ended
    } else {
        ended.push(parts.last())
    }
}

/// The lines of the text.
pub fn lines_of(s: &str) -> (r: Vec<String>)
    ensures
        r.deep_view() == lines(s@),
{
    let parts = split_at_each(s, '\n');
    let mut r: Vec<String> = Vec::new();
    let mut i: usize = 0;
    let ghost all = split(s@, '\n');
    let ghost ended = all.drop_last().map_values(|l: Seq<char>| without_return(l));
    while i < parts.len() - 1
        invariant
            i <= parts@.len() - 1,
            parts.deep_view() == all,
            ended == all.drop_last().map_values(|l: Seq<char>| without_return(l)),
            r.deep_view() == ended.take(i as int),
        decreases parts@.len() - i,
    {
        let ghost before = r.deep_view();
        let v = chars_of(&parts[i]);
        proof {
            assert(parts.deep_view()[i as int] == v@);
        }
        let n = if v.len() > 0 && v[v.len() - 1] == '\r' {
            v.len() - 1
        } else {
            v.len()
        };
        let line = text_of_range(&v, 0, n);
        proof {
            assert(line@ =~= without_return(v@));
            assert(ended.take(i + 1) =~= ended.take(i as int).push(without_return(v@)));
        }
        r.push(line);
        proof {
            assert(r.deep_view() =~= before.push(without_return(v@)));
        }
        i = i + 1;
    }
    proof {
        assert(ended.take(i as int) =~= ended);
        assert(parts.deep_view()[i as int] == all.last());
        assert(parts.deep_view()[i as int] == parts@[i as int]@);
    }
    let last = parts[i].clone();
    if !last.as_str().is_empty() {
        let ghost before = r.deep_view();
        r.push(last);
        proof {
            assert(r.deep_view() =~= before.push(all.last()));
        }
    }
    r
}

/// The words of a text: its longest runs without white space.
pub open spec fn words(s: Seq<char>) -> Seq<Seq<char>>
    decreases s.len(),
{
    if s.len() == 0 {
        Seq::empty()
    } else {
        let before = s.drop_last();
        let r = words(before);
        if is_space(s.last()) {
            r
        } else if before.len() == 0 || is_space(before.last()) {
            r.push(seq![s.last()])
        } else {
            r.drop_last().push(r.last().push(s.last()))
        }
    }
}

/// The words of the text.
pub fn words_of(s: &str) -> (r: Vec<String>)
    ensures
        r.deep_view() == words(s@),
{
    let v = chars_of(s);
    let mut r: Vec<String> = Vec::new();
    let mut word = String::new();
    let mut inside = false;
    let mut i: usize = 0;
    while i < v.len()
        invariant
            i <= v@.len(),
            inside <==> (i > 0 && !is_space(v@[i - 1])),
            words(v@.take(i as int)) == (if inside {
                r.deep_view().push(word@)
            } else {
                r.deep_view()
            }),
        decreases v@.len() - i,
    {
        let ghost before = r.deep_view();
        let ghost word0 = word@;
        proof {
            assert(v@.take(i + 1).drop_last() == v@.take(i as int));
            assert(v@.take(i + 1).last() == v@[i as int]);
            if i > 0 {
                assert(v@.take(i as int).last() == v@[i - 1]);
            }
            assert(before.push(word0).drop_last() == before);
        }
        let c = v[i];
        if space(c) {
            if inside {
                r.push(word);
                word = String::new();
                proof {
                    assert(r.deep_view() =~= before.push(word0));
                }
            }
            inside = false;
        } else if inside {
            word.push(c);
        } else {
            word = String::new();
            word.push(c);
            proof {
                assert(word@ =~= seq![c]);
            }
            inside = true;
        }
        i = i + 1;
    }
    let ghost before = r.deep_view();
    let ghost word0 = word@;
    proof {
        assert(v@.take(i as int) == v@);
    }
    if inside {
        r.push(word);
        proof {
            assert(r.deep_view() =~= before.push(word0));
        }
    }
    r
}

/// The text without its white space.
pub fn without_spaces(s: &str) -> (r: String)
    ensures
        r@ == s@.filter(|c: char| !is_space(c)),
{
    let v = chars_of(s);
    let mut r = String::new();
    let mut i: usize = 0;
    let ghost keep = |c: char| !is_space(c);
    while i < v.len()
        invariant
            i <= v@.len(),
            keep == (|c: char| !is_space(c)),
            r@ == v@.take(i as int).filter(keep),
        decreases v@.len() - i,
    {
        proof {
            assert(v@.take(i + 1) == v@.take(i as int).push(v@[i as int]));
            v@.take(i as int).lemma_filter_push(v@[i as int], keep);
        }
        if !space(v[i]) {
            r.push(v[i]);
        }
        i = i + 1;
    }
    proof {
        assert(v@.take(i as int) == v@);
    }
    r
}

/// The decimal digit of a number below ten, and the letter of one below
/// sixteen.
pub open spec fn digit(d: int) -> char {
    if d < 10 {
        (48 + d) as char
    } else {
        (87 + d) as char
    }
}

fn digit_char(d: u8) -> (c: char)
    requires
        d < 16,
    ensures
        c == digit(d as int),
{
    if d < 10 {
        (48u8 + d) as char
    } else {
        (87u8 + d) as char
    }
}

/// The digits of a number in the given base, most significant first.
pub open spec fn digits(n: nat, base: nat) -> Seq<char>
    decreases n,
{
    if base < 2 {
        Seq::empty()
    } else if n < base {
        seq![digit(n as int)]
    } else {
        proof {
            assert(n / base < n) by (nonlinear_arith)
                requires
                    2 <= base <= n,
            ;
        }
        digits(n / base, base).push(digit((n % base) as int))
    }
}

/// A signed number in decimal.
pub open spec fn decimal(i: int) -> Seq<char> {
    if i < 0 {
        seq!['-'] + digits((-i) as nat, 10)
    } else {
        digits(i as nat, 10)
    }
}

/// The digits of a number in base ten or sixteen.
pub fn digits_text(n: u128, base: u128) -> (s: String)
    requires
        base == 10 || base == 16,
    ensures
        s@ == digits(n as nat, base as nat),
    decreases n,
{
    if n < base {
        let mut s = String::new();
        s.push(digit_char(n as u8));
        proof {
            assert(s@ =~= seq![digit(n as int)]);
        }
        s
    } else {
        let mut s = digits_text(n / base, base);
        s.push(digit_char((n % base) as u8));
        s
    }
}

/// The decimal text of a signed number.
pub fn decimal_text(i: i64) -> (s: String)
    ensures
        s@ == decimal(i as int),
{
    if i < 0 {
        let n: i128 = -(i as i128);
        let d = digits_text(n as u128, 10);
        let mut s = String::new();
        s.push('-');
        proof {
            assert(s@ =~= seq!['-']);
        }
        s.append(&d);
        s
    } else {
        digits_text(i as u128, 10)
    }
}

/// The letters and digits among the ASCII characters.
pub open spec fn ascii_alphanumeric(c: char) -> bool {
    ('a' <= c <= 'z') || ('A' <= c <= 'Z') || ('0' <= c <= '9')
}

/// What `char::is_alphanumeric` answers for a character outside ASCII.
pub uninterp spec fn unicode_alphanumeric(c: char) -> bool;

/// Whether a character is a letter or a digit.
pub open spec fn alphanumeric(c: char) -> bool {
    if (c as u32) < 128 {
        ascii_alphanumeric(c)
    } else {
        unicode_alphanumeric(c)
    }
}

/// Calls `char::is_alphanumeric`, whose answer depends on the character alone
/// and singles out the letters and digits among the ASCII characters. Which
/// other characters count follows the Unicode tables and is not restated.
#[verifier::external_body]
pub(crate) fn is_alphanumeric(c: char) -> (r: bool)
    ensures
        (c as u32) < 128 ==> r == ascii_alphanumeric(c),
        (c as u32) >= 128 ==> r == unicode_alphanumeric(c),
{
    c.is_alphanumeric()
}

/// The lower-case form of an ASCII character.
pub open spec fn ascii_lower(c: char) -> char {
    if 'A' <= c <= 'Z' {
        (c as u32 + 32) as char
    } else {
        c
    }
}

/// The upper-case form of an ASCII character.
pub open spec fn ascii_upper(c: char) -> char {
    if 'a' <= c <= 'z' {
        (c as u32 - 32) as char
    } else {
        c
    }
}

/// What `str::to_lowercase` makes of a text that is not all ASCII.
pub uninterp spec fn unicode_lowercased(s: Seq<char>) -> Seq<char>;

/// A text in lower case.
pub open spec fn lowercased(s: Seq<char>) -> Seq<char> {
    if vstd::utf8::is_ascii_chars(s) {
        s.map_values(|c: char| ascii_lower(c))
    } else {
        unicode_lowercased(s)
    }
}

/// Calls `str::to_lowercase`. The result depends on the text alone; a text of
/// ASCII characters is mapped letter by letter. How other texts are mapped
/// follows the Unicode tables and is not restated.
#[verifier::external_body]
pub(crate) fn to_lowercase(s: &str) -> (r: String)
    ensures
        vstd::utf8::is_ascii_chars(s@) ==> r@ == s@.map_values(|c: char| ascii_lower(c)),
        !vstd::utf8::is_ascii_chars(s@) ==> r@ == unicode_lowercased(s@),
{
    s.to_lowercase()
}

/// What `str::to_uppercase` makes of a text that is not all ASCII.
pub uninterp spec fn unicode_uppercased(s: Seq<char>) -> Seq<char>;

/// A text in upper case.
pub open spec fn uppercased(s: Seq<char>) -> Seq<char> {
    if vstd::utf8::is_ascii_chars(s) {
        s.map_values(|c: char| ascii_upper(c))
    } else {
        unicode_uppercased(s)
    }
}

/// Calls `str::to_uppercase`. The result depends on the text alone; a text of
/// ASCII characters is mapped letter by letter. How other texts are mapped
/// follows the Unicode tables and is not restated.
#[verifier::external_body]
pub(crate) fn to_uppercase(s: &str) -> (r: String)
    ensures
        vstd::utf8::is_ascii_chars(s@) ==> r@ == s@.map_values(|c: char| ascii_upper(c)),
        !vstd::utf8::is_ascii_chars(s@) ==> r@ == unicode_uppercased(s@),
{
    s.to_uppercase()
}

/// What `String::from_utf8_lossy` makes of bytes that are not valid UTF-8.
pub uninterp spec fn repaired_utf8(bytes: Seq<u8>) -> Seq<char>;

/// The text that bytes stand for, damaged parts being replaced.
pub open spec fn utf8_lossy(bytes: Seq<u8>) -> Seq<char> {
    if vstd::utf8::valid_utf8(bytes) {
        vstd::utf8::decode_utf8(bytes)
    } else {
        repaired_utf8(bytes)
    }
}

/// Calls `String::from_utf8_lossy`. The result depends on the bytes alone and
/// is the text they encode where they are valid UTF-8. Where the replacement
/// characters fall in other input is not restated.
#[verifier::external_body]
pub(crate) fn from_utf8_lossy(bytes: &Vec<u8>) -> (r: String)
    ensures
        vstd::utf8::valid_utf8(bytes@) ==> r@ == vstd::utf8::decode_utf8(bytes@),
        !vstd::utf8::valid_utf8(bytes@) ==> r@ == repaired_utf8(bytes@),
{
    String::from_utf8_lossy(bytes).into_owned()
}

/// The value of a hexadecimal digit given as a byte.
pub open spec fn hex_value(b: u8) -> Option<u8> {
    if 48 <= b <= 57 {
        Some((b - 48) as u8)
    } else if 65 <= b <= 70 {
        Some((b - 55) as u8)
    } else if 97 <= b <= 102 {
        Some((b - 87) as u8)
    } else {
        None
    }
}

/// The value of the hexadecimal digit, if it is one.
pub fn hex_digit(b: u8) -> (r: Option<u8>)
    ensures
        r == hex_value(b),
        r is Some ==> r->0 < 16,
{
    if 48 <= b && b <= 57 {
        Some(b - 48)
    } else if 65 <= b && b <= 70 {
        Some(b - 55)
    } else if 97 <= b && b <= 102 {
        Some(b - 87)
    } else {
        None
    }
}

/// The number that decimal digits stand for.
pub open spec fn digits_value(s: Seq<char>) -> Option<int>
    decreases s.len(),
{
    if s.len() == 0 {
        None
    } else if !('0' <= s.last() <= '9') {
        None
    } else if s.len() == 1 {
        Some(s[0] as int - '0' as int)
    } else {
        match digits_value(s.drop_last()) {
            Some(n) => Some(10 * n + (s.last() as int - '0' as int)),
            None => None,
        }
    }
}

/// The number that a text stands for, where it is one and fits: digits behind
/// an optional sign.
pub open spec fn parsed(s: Seq<char>) -> Option<i64> {
    let value = if s.len() > 0 && s[0] == '-' {
        match digits_value(s.skip(1)) {
            Some(n) => Some(-n),
            None => None,
        }
    } else if s.len() > 0 && s[0] == '+' {
        digits_value(s.skip(1))
    } else {
        digits_value(s)
    };
    match value {
        Some(n) => if i64::MIN <= n <= i64::MAX {
            Some(n as i64)
        } else {
            None
        },
        None => None,
    }
}

proof fn lemma_digits_value_grows(s: Seq<char>, i: int)
    requires
        0 < i <= s.len(),
    ensures
        digits_value(s) is Some ==> digits_value(s.take(i)) is Some && 0 <= digits_value(
            s.take(i),
        )->0 <= digits_value(s)->0,
    decreases s.len() - i,
{
    if i < s.len() {
        lemma_digits_value_grows(s, i + 1);
        assert(s.take(i + 1).drop_last() == s.take(i));
        assert(s.take(i + 1).len() > 1);
        lemma_digits_value_low(s.take(i));
    } else {
        assert(s.take(i) == s);
        lemma_digits_value_low(s);
    }
}

proof fn lemma_digits_value_low(s: Seq<char>)
    ensures
        digits_value(s) is Some ==> digits_value(s)->0 >= 0,
    decreases s.len(),
{
    if s.len() > 1 {
        lemma_digits_value_low(s.drop_last());
    }
}

/// The number that the text stands for, where it is one and fits.
pub fn parse_number(s: &str) -> (r: Option<i64>)
    ensures
        r == parsed(s@),
{
    let v = chars_of(s);
    let negative = v.len() > 0 && v[0] == '-';
    let signed = negative || (v.len() > 0 && v[0] == '+');
    let start: usize = if signed {
        1
    } else {
        0
    };
    let ghost d = v@.skip(start as int);
    proof {
        assert(v@.skip(0) == v@);
    }
    if v.len() == start {
        return None;
    }
    let mut n: i128 = 0;
    let mut i: usize = start;
    while i < v.len()
        invariant
            start <= i <= v@.len(),
            start < v@.len(),
            d == v@.skip(start as int),
            0 <= n <= 9223372036854775808,
            i == start ==> n == 0,
            i > start ==> digits_value(d.take(i - start)) == Some(n as int),
            d == (if signed {
                s@.skip(1)
            } else {
                s@
            }),
            signed == (negative || (s@.len() > 0 && s@[0] == '+')),
            negative == (s@.len() > 0 && s@[0] == '-'),
        decreases v@.len() - i,
    {
        let c = v[i];
        let ghost k = i - start;
        proof {
            assert(d.take(k + 1).last() == c);
            assert(d.take(k + 1).drop_last() == d.take(k));
            if k == 0 {
                assert(d.take(1)[0] == c);
            }
        }
        if !('0' <= c && c <= '9') {
            proof {
                lemma_digits_value_grows(d, k + 1);
            }
            return None;
        }
        n = n * 10 + (c as i128 - '0' as i128);
        proof {
            assert(digits_value(d.take(k + 1)) == Some(n as int));
        }
        if n > 9223372036854775808 {
            proof {
                lemma_digits_value_grows(d, k + 1);
            }
            return None;
        }
        i = i + 1;
    }
    proof {
        assert(d.take(i - start) == d);
    }
    if negative {
        Some((0 - n) as i64)
    } else if n <= 9223372036854775807 {
        Some(n as i64)
    } else {
        None
    }
}

/// The decimal digits of a number read back as the number.
pub proof fn lemma_digits_read_back(n: nat)
    ensures
        digits(n, 10).len() > 0,
        digits(n, 10)[0] != '-',
        digits(n, 10)[0] != '+',
        digits_value(digits(n, 10)) == Some(n as int),
    decreases n,
{
    if n >= 10 {
        lemma_digits_read_back(n / 10);
        let head = digits(n / 10, 10);
        assert(digits(n, 10) == head.push(digit((n % 10) as int)));
        assert(digits(n, 10).drop_last() =~= head);
        assert(digits(n, 10)[0] == head[0]);
    }
}

/// The decimal text of a number reads back as the number.
pub proof fn lemma_number_reads_back(i: i64)
    ensures
        parsed(decimal(i as int)) == Some(i),
{
    let d = decimal(i as int);
    if i < 0 {
        lemma_digits_read_back((-i) as nat);
        assert(d.skip(1) =~= digits((-i) as nat, 10));
    } else {
        lemma_digits_read_back(i as nat);
    }
}

/// A copy of a list of texts.
pub fn copy_texts(a: &Vec<String>) -> (r: Vec<String>)
    ensures
        r@ == a@,
        r.deep_view() == a.deep_view(),
{
    let mut r: Vec<String> = Vec::new();
    let mut i: usize = 0;
    while i < a.len()
        invariant
            i <= a@.len(),
            r@ == a@.take(i as int),
        decreases a@.len() - i,
    {
        r.push(a[i].clone());
        proof {
            assert(a@.take(i + 1) == a@.take(i as int).push(a@[i as int]));
        }
        i = i + 1;
    }
    proof {
        assert(a@.take(i as int) == a@);
        assert(r.deep_view() =~= a.deep_view());
    }
    r
}

/// A text begins with a prefix exactly when it is the prefix with something
/// behind it, and stripping the prefix leaves what is behind it.
pub proof fn lemma_prefixes(p: Seq<char>, rest: Seq<char>, s: Seq<char>)
    ensures
        begins(p + rest, p),
        stripped(p + rest, p) == Some(rest),
        begins(s, p) ==> s == p + s.skip(p.len() as int),
        stripped(s, p) is Some ==> s == p + stripped(s, p)->0,
{
    assert((p + rest).take(p.len() as int) =~= p);
    assert((p + rest).skip(p.len() as int) =~= rest);
    if begins(s, p) {
        assert(s =~= s.take(p.len() as int) + s.skip(p.len() as int));
    }
}

/// A text occurs in another exactly when the other is the text with something
/// before it and something behind it.
pub proof fn lemma_occurrences(a: Seq<char>, p: Seq<char>, b: Seq<char>, s: Seq<char>)
    ensures
        occurs(a + p + b, p),
        occurs(s, p) ==> exists|x: Seq<char>, y: Seq<char>| s == #[trigger] (x + p + y),
{
    assert((a + p + b).subrange(a.len() as int, (a.len() + p.len()) as int) =~= p);
    assert(occurs_at(a + p + b, p, a.len() as int));
    if occurs(s, p) {
        let i = choose|i: int| occurs_at(s, p, i);
        let x = s.take(i);
        let y = s.skip(i + p.len());
        assert(s =~= x + s.subrange(i, i + p.len()) + y);
        assert(s == x + p + y);
    }
}

proof fn lemma_trimmed_start_blank(a: Seq<char>, m: Seq<char>)
    requires
        forall|i: int| 0 <= i < a.len() ==> is_space(#[trigger] a[i]),
    ensures
        trimmed_start(a + m) == trimmed_start(m),
    decreases a.len(),
{
    if a.len() > 0 {
        assert((a + m)[0] == a[0]);
        assert((a + m).skip(1) =~= a.skip(1) + m);
        lemma_trimmed_start_blank(a.skip(1), m);
    } else {
        assert(a + m =~= m);
    }
}

proof fn lemma_trimmed_end_blank(m: Seq<char>, b: Seq<char>)
    requires
        forall|i: int| 0 <= i < b.len() ==> is_space(#[trigger] b[i]),
    ensures
        trimmed_end(m + b) == trimmed_end(m),
    decreases b.len(),
{
    if b.len() > 0 {
        assert((m + b).last() == b[b.len() - 1]);
        assert((m + b).drop_last() =~= m + b.drop_last());
        lemma_trimmed_end_blank(m, b.drop_last());
    } else {
        assert(m + b =~= m);
    }
}

/// Trimming takes the white space off both ends of a text and nothing else:
/// what is between, which neither begins nor ends with white space, is left as
/// it is, and nothing is left of white space alone.
pub proof fn lemma_trimming(a: Seq<char>, m: Seq<char>, b: Seq<char>)
    requires
        forall|i: int| 0 <= i < a.len() ==> is_space(#[trigger] a[i]),
        forall|i: int| 0 <= i < b.len() ==> is_space(#[trigger] b[i]),
        m.len() > 0 ==> !is_space(m[0]) && !is_space(m.last()),
    ensures
        trimmed(a + m + b) == m,
        m.len() > 0 ==> trimmed_start(a + m + b) == m + b,
{
    assert(a + m + b =~= a + (m + b));
    lemma_trimmed_start_blank(a, m + b);
    if m.len() > 0 {
        assert((m + b)[0] == m[0]);
        lemma_trimmed_end_blank(m, b);
    } else {
        assert(m + b =~= b + Seq::empty());
        lemma_trimmed_start_blank(b, Seq::empty());
        assert(trimmed_start(Seq::<char>::empty()) == Seq::<char>::empty());
        assert(m =~= Seq::empty());
    }
}

/// The characters that count as white space in ordinary texts.
pub proof fn lemma_ordinary_spaces(c: char)
    ensures
        c == ' ' || c == '\t' || c == '\n' || c == '\r' ==> is_space(c),
        '!' <= c <= '~' ==> !is_space(c),
{
}

/// A text without the separator is one part.
pub proof fn lemma_split_unbroken(s: Seq<char>, sep: char)
    requires
        !s.contains(sep),
    ensures
        split(s, sep) == seq![s],
    decreases s.len(),
{
    if s.len() > 0 {
        assert(s.contains(s.last())) by {
            assert(s[s.len() - 1] == s.last());
        }
        assert forall|c: char| s.drop_last().contains(c) implies s.contains(c) by {
            let i = choose|i: int| 0 <= i < s.drop_last().len() && s.drop_last()[i] == c;
            assert(s[i] == c);
        }
        lemma_split_unbroken(s.drop_last(), sep);
        assert(s.drop_last().push(s.last()) =~= s);
        assert(split(s, sep) =~= seq![s]);
    } else {
        assert(s =~= Seq::empty());
    }
}

/// Two texts with the separator between them have the parts of the first and
/// then those of the second.
pub proof fn lemma_split_joined(a: Seq<char>, b: Seq<char>, sep: char)
    ensures
        split(a.push(sep) + b, sep) == split(a, sep) + split(b, sep),
    decreases b.len(),
{
    let s = a.push(sep) + b;
    if b.len() == 0 {
        assert(s =~= a.push(sep));
        assert(s.drop_last() =~= a);
        assert(split(b, sep) =~= seq![Seq::empty()]);
        assert(split(s, sep) =~= split(a, sep) + split(b, sep));
    } else {
        lemma_split_joined(a, b.drop_last(), sep);
        lemma_split_nonempty(b.drop_last(), sep);
        assert(s.drop_last() =~= a.push(sep) + b.drop_last());
        assert(s.last() == b.last());
        assert(split(s, sep) =~= split(a, sep) + split(b, sep));
    }
}

/// The lines of a text, one by one: a text without a line feed is one line,
/// unless it is empty; a line feed ends a line, as does a carriage return with
/// a line feed.
pub proof fn lemma_lines_one_by_one(a: Seq<char>, b: Seq<char>)
    requires
        !a.contains('\n'),
    ensures
        a.len() > 0 ==> lines(a) == seq![a],
        lines(Seq::<char>::empty()) == Seq::<Seq<char>>::empty(),
        (a.len() == 0 || a.last() != '\r') ==> lines(a.push('\n') + b) == seq![a] + lines(b),
        lines(a.push('\r').push('\n') + b) == seq![a] + lines(b),
{
    lemma_split_unbroken(a, '\n');
    lemma_split_unbroken(Seq::empty(), '\n');
    assert(seq![a].drop_last().map_values(|l: Seq<char>| without_return(l)) =~= Seq::empty());
    assert(seq![Seq::<char>::empty()].drop_last().map_values(|l: Seq<char>| without_return(l))
        =~= Seq::empty());
    if a.len() > 0 {
        assert(lines(a) =~= seq![a]);
    }
    if a.len() == 0 || a.last() != '\r' {
        lemma_first_line(a, b);
    }
    let returned = a.push('\r');
    assert(!returned.contains('\n')) by {
        if returned.contains('\n') {
            let i = choose|i: int| 0 <= i < returned.len() && returned[i] == '\n';
            assert(a[i] == '\n');
        }
    }
    lemma_first_line(returned, b);
    assert(returned.drop_last() =~= a);
}

proof fn lemma_first_line(a: Seq<char>, b: Seq<char>)
    requires
        !a.contains('\n'),
    ensures
        lines(a.push('\n') + b) == seq![without_return(a)] + lines(b),
{
    let s = a.push('\n') + b;
    lemma_split_unbroken(a, '\n');
    lemma_split_joined(a, b, '\n');
    lemma_split_nonempty(b, '\n');
    let parts = split(s, '\n');
    let rest = split(b, '\n');
    let clean = |l: Seq<char>| without_return(l);
    assert(parts.drop_last() =~= seq![a] + rest.drop_last());
    assert(parts.drop_last().map_values(clean) =~= seq![without_return(a)]
        + rest.drop_last().map_values(clean));
    assert(parts.last() == rest.last());
    assert(lines(s) =~= seq![without_return(a)] + lines(b));
}

/// The words of a text, one by one: white space between words is passed over,
/// and what has no white space in it is one word.
pub proof fn lemma_words_one_by_one(w: Seq<char>, blank: char, rest: Seq<char>)
    requires
        w.len() > 0,
        forall|i: int| 0 <= i < w.len() ==> !is_space(#[trigger] w[i]),
        is_space(blank),
    ensures
        words(w) == seq![w],
        words(seq![blank] + rest) == words(rest),
        words(w.push(blank) + rest) == seq![w] + words(rest),
    decreases rest.len(),
{
    lemma_one_word(w);
    if rest.len() == 0 {
        assert(seq![blank] + rest =~= seq![blank]);
        assert(seq![blank].drop_last() =~= Seq::<char>::empty());
        assert(words(Seq::<char>::empty()) == Seq::<Seq<char>>::empty());
        assert(words(seq![blank]) == words(seq![blank].drop_last()));
        assert(rest =~= Seq::<char>::empty());
        assert(w.push(blank) + rest =~= w.push(blank));
        assert(w.push(blank).drop_last() =~= w);
        assert(words(w.push(blank)) == words(w));
        assert(seq![w] + words(rest) =~= seq![w]);
    } else {
        let less = rest.drop_last();
        lemma_words_one_by_one(w, blank, less);
        let s = seq![blank] + rest;
        let t = w.push(blank) + rest;
        assert(s.drop_last() =~= seq![blank] + less);
        assert(t.drop_last() =~= w.push(blank) + less);
        assert(s.last() == rest.last() && t.last() == rest.last());
        lemma_last_word(less);
        if less.len() > 0 {
            assert(s.drop_last().last() == less.last());
            assert(t.drop_last().last() == less.last());
        } else {
            assert(s.drop_last().last() == blank);
            assert(t.drop_last().last() == blank);
        }
        assert(words(s) =~= words(rest));
        assert(words(t) =~= seq![w] + words(rest));
    }
}

proof fn lemma_last_word(s: Seq<char>)
    ensures
        s.len() > 0 && !is_space(s.last()) ==> words(s).len() > 0,
    decreases s.len(),
{
    if s.len() > 0 {
        lemma_last_word(s.drop_last());
    }
}

proof fn lemma_one_word(w: Seq<char>)
    requires
        w.len() > 0,
        forall|i: int| 0 <= i < w.len() ==> !is_space(#[trigger] w[i]),
    ensures
        words(w) == seq![w],
    decreases w.len(),
{
    let before = w.drop_last();
    assert(w.last() == w[w.len() - 1]);
    if before.len() > 0 {
        assert forall|i: int| 0 <= i < before.len() implies !is_space(#[trigger] before[i]) by {
            assert(before[i] == w[i]);
        }
        lemma_one_word(before);
        assert(before.last() == w[before.len() - 1]);
        assert(before.push(w.last()) =~= w);
        assert(words(w) =~= seq![w]);
    } else {
        assert(before =~= Seq::<char>::empty());
        assert(words(before) == Seq::<Seq<char>>::empty());
        assert(seq![w.last()] =~= w);
        assert(words(w) =~= seq![w]);
    }
}

/// A digit in base sixteen reads back as its value.
pub proof fn lemma_digits_have_their_value(d: int)
    requires
        0 <= d < 16,
    ensures
        hex_value(digit(d) as u8) == Some(d as u8),
        d < 10 ==> '0' <= digit(d) <= '9',
        d >= 10 ==> 'a' <= digit(d) <= 'f',
{
}

/// The two cases of a letter: each form leads to the other, and what is no
/// letter stays.
pub proof fn lemma_letter_cases(c: char)
    ensures
        'a' <= c <= 'z' ==> 'A' <= ascii_upper(c) <= 'Z' && ascii_lower(ascii_upper(c)) == c
            && ascii_lower(c) == c,
        'A' <= c <= 'Z' ==> 'a' <= ascii_lower(c) <= 'z' && ascii_upper(ascii_lower(c)) == c
            && ascii_upper(c) == c,
        !('a' <= c <= 'z') && !('A' <= c <= 'Z') ==> ascii_upper(c) == c && ascii_lower(c) == c,
        c == 'a' ==> ascii_upper(c) == 'A',
        c == 'z' ==> ascii_upper(c) == 'Z',
{
}

} // verus!
