//! Text as a sequence of characters: blanks, words, upper case and comparison.

use vstd::prelude::*;

verus! {

/// `String::push` appends one character to the end of the string.
pub assume_specification[ String::push ](s: &mut String, c: char)
    ensures
        final(s)@ == old(s)@.push(c),
;

/// The classes of characters that delimit the parts of a command line.
#[derive(Clone, Copy)]
pub enum CharClass {
    Blank,
    Word,
    Colon,
    NotColon,
    Digit,
}

/// The characters with the Unicode property White_Space.
pub open spec fn is_blank(c: char) -> bool {
    ||| '\u{9}' <= c <= '\u{d}'
    ||| c == '\u{20}'
    ||| c == '\u{85}'
    ||| c == '\u{a0}'
    ||| c == '\u{1680}'
    ||| '\u{2000}' <= c <= '\u{200a}'
    ||| c == '\u{2028}'
    ||| c == '\u{2029}'
    ||| c == '\u{202f}'
    ||| c == '\u{205f}'
    ||| c == '\u{3000}'
}

pub open spec fn is_digit(c: char) -> bool {
    '0' <= c <= '9'
}

impl CharClass {
    pub open spec fn has(self, c: char) -> bool {
        match self {
            CharClass::Blank => is_blank(c),
            CharClass::Word => !is_blank(c),
            CharClass::Colon => c == ':',
            CharClass::NotColon => c != ':',
            CharClass::Digit => is_digit(c),
        }
    }

    fn test(self, c: char) -> (r: bool)
        ensures
            r == self.has(c),
    {
        match self {
            CharClass::Blank => test_blank(c),
            CharClass::Word => !test_blank(c),
            CharClass::Colon => c == ':',
            CharClass::NotColon => c != ':',
            CharClass::Digit => '0' <= c && c <= '9',
        }
    }
}

fn test_blank(c: char) -> (r: bool)
    ensures
        r == is_blank(c),
{
    ('\u{9}' <= c && c <= '\u{d}') || c == '\u{20}' || c == '\u{85}' || c == '\u{a0}' || c
        == '\u{1680}' || ('\u{2000}' <= c && c <= '\u{200a}') || c == '\u{2028}' || c == '\u{2029}'
        || c == '\u{202f}' || c == '\u{205f}' || c == '\u{3000}'
}

/// How many characters of the class stand at the front of the text.
pub open spec fn run_length(s: Seq<char>, class: CharClass) -> nat
    decreases s.len(),
{
    if s.len() > 0 && class.has(s[0]) {
        1 + run_length(s.skip(1), class)
    } else {
        0
    }
}

/// How many blanks stand at the end of the text.
pub open spec fn trailing_blanks(s: Seq<char>) -> nat
    decreases s.len(),
{
    if s.len() > 0 && is_blank(s.last()) {
        1 + trailing_blanks(s.drop_last())
    } else {
        0
    }
}

/// The text without the blanks at its two ends.
pub open spec fn trimmed(s: Seq<char>) -> Seq<char> {
    let t = s.skip(run_length(s, CharClass::Blank) as int);
    t.take(t.len() - trailing_blanks(t))
}

/// The words of a line: its maximal runs of characters that are not blanks.
pub open spec fn words(s: Seq<char>) -> Seq<Seq<char>>
    decreases s.len(),
{
    let t = s.skip(run_length(s, CharClass::Blank) as int);
    let n = run_length(t, CharClass::Word) as int;
    proof {
        lemma_run(s, CharClass::Blank);
        lemma_run(t, CharClass::Word);
    }
    if t.len() == 0 {
        Seq::empty()
    } else {
        seq![t.take(n)] + words(t.skip(n))
    }
}

pub open spec fn upper_char(c: char) -> char {
    if 'a' <= c <= 'z' {
        (c as u8 - 32) as char
    } else {
        c
    }
}

/// The text with its ASCII letters in upper case.
pub open spec fn uppercase(s: Seq<char>) -> Seq<char> {
    Seq::new(s.len(), |i: int| upper_char(s[i]))
}

/// Equality of two texts up to the case of ASCII letters.
pub open spec fn same_ignoring_case(a: Seq<char>, b: Seq<char>) -> bool {
    uppercase(a) == uppercase(b)
}

pub open spec fn has_prefix(s: Seq<char>, prefix: Seq<char>) -> bool {
    prefix.len() <= s.len() && s.take(prefix.len() as int) == prefix
}

/// Whether `part` occurs in `s` as a contiguous piece.
pub open spec fn occurs_in(part: Seq<char>, s: Seq<char>) -> bool {
    exists|i: int| #[trigger] occurs_at(part, s, i)
}

pub open spec fn occurs_at(part: Seq<char>, s: Seq<char>, i: int) -> bool {
    0 <= i && i + part.len() <= s.len() && s.subrange(i, i + part.len()) == part
}

pub open spec fn all_digits(s: Seq<char>) -> bool {
    forall|i: int| 0 <= i < s.len() ==> is_digit(#[trigger] s[i])
}

/// The pieces in order, with the separator between every two of them.
pub open spec fn joined(parts: Seq<Seq<char>>, separator: Seq<char>) -> Seq<char>
    decreases parts.len(),
{
    if parts.len() == 0 {
        Seq::empty()
    } else if parts.len() == 1 {
        parts[0]
    } else {
        joined(parts.drop_last(), separator) + separator + parts.last()
    }
}

/// The texts behind a sequence of string slices.
pub open spec fn texts(parts: Seq<&str>) -> Seq<Seq<char>> {
    Seq::new(parts.len(), |i: int| parts[i]@)
}

/// The texts behind a sequence of strings.
pub open spec fn string_texts(parts: Seq<String>) -> Seq<Seq<char>> {
    Seq::new(parts.len(), |i: int| parts[i]@)
}

/// A run is no longer than the text, all of it is of the class, and it ends at the first
/// character of another class.
pub proof fn lemma_run(s: Seq<char>, class: CharClass)
    ensures
        run_length(s, class) <= s.len(),
        forall|i: int| 0 <= i < run_length(s, class) ==> class.has(#[trigger] s[i]),
        run_length(s, class) < s.len() ==> !class.has(s[run_length(s, class) as int]),
    decreases s.len(),
{
    if s.len() > 0 && class.has(s[0]) {
        let t = s.skip(1);
        lemma_run(t, class);
        assert forall|i: int| 0 <= i < run_length(s, class) implies class.has(#[trigger] s[i]) by {
            if i > 0 {
                assert(s[i] == t[i - 1]);
            }
        }
    }
}

/// The length of a run is determined by where it ends.
pub proof fn lemma_run_is(s: Seq<char>, class: CharClass, n: nat)
    requires
        n <= s.len(),
        forall|i: int| 0 <= i < n ==> class.has(#[trigger] s[i]),
        n < s.len() ==> !class.has(s[n as int]),
    ensures
        run_length(s, class) == n,
{
    lemma_run(s, class);
    let r = run_length(s, class);
    if r < n {
        assert(class.has(s[r as int]));
    }
}

/// A text that neither starts nor ends with a blank is trimmed already.
pub proof fn lemma_trimmed_already(s: Seq<char>)
    requires
        s.len() > 0,
        !is_blank(s[0]),
        !is_blank(s.last()),
    ensures
        trimmed(s) == s,
{
    assert(s.skip(0) == s);
    assert(s.take(s.len() as int) == s);
}

/// A trimmed text neither starts nor ends with a blank.
pub proof fn lemma_trimmed_ends(s: Seq<char>)
    ensures
        trimmed(s).len() > 0 ==> !is_blank(trimmed(s)[0]) && !is_blank(trimmed(s).last()),
{
    lemma_run(s, CharClass::Blank);
    let t = s.skip(run_length(s, CharClass::Blank) as int);
    lemma_trailing(t);
}

/// Blanks at the end end at the last character that is none.
pub proof fn lemma_trailing(s: Seq<char>)
    ensures
        trailing_blanks(s) <= s.len(),
        trailing_blanks(s) < s.len() ==> !is_blank(s[s.len() - trailing_blanks(s) - 1]),
        forall|i: int| s.len() - trailing_blanks(s) <= i < s.len() ==> is_blank(#[trigger] s[i]),
    decreases s.len(),
{
    if s.len() > 0 && is_blank(s.last()) {
        let t = s.drop_last();
        lemma_trailing(t);
        assert forall|i: int| s.len() - trailing_blanks(s) <= i < s.len() implies is_blank(
            #[trigger] s[i],
        ) by {
            if i < t.len() {
                assert(s[i] == t[i]);
            }
        }
    }
}

/// The characters of a text.
pub fn chars_of(s: &str) -> (v: Vec<char>)
    ensures
        v@ == s@,
{
    let mut v: Vec<char> = Vec::new();
    for c in it: s.chars()
        invariant
            v@ == it.seq().take(it.index() as int),
            it.seq() == s@,
    {
        v.push(c);
    }
    v
}

/// The end of the run of the class that starts at `from`.
pub fn run_end(chars: &Vec<char>, from: usize, class: CharClass) -> (end: usize)
    requires
        from <= chars@.len(),
    ensures
        from <= end <= chars@.len(),
        end - from == run_length(chars@.skip(from as int), class),
{
    let mut end: usize = from;
    while end < chars.len() && class.test(chars[end])
        invariant
            from <= end <= chars@.len(),
            forall|i: int| from <= i < end ==> class.has(#[trigger] chars@[i]),
        decreases chars@.len() - end,
    {
        end = end + 1;
    }
    proof {
        let s = chars@.skip(from as int);
        assert forall|i: int| 0 <= i < end - from implies class.has(#[trigger] s[i]) by {
            assert(s[i] == chars@[from + i]);
        }
        lemma_run_is(s, class, (end - from) as nat);
    }
    end
}

/// The text without the blanks at its two ends.
pub fn trim<'a>(s: &'a str) -> (r: &'a str)
    ensures
        r@ == trimmed(s@),
{
    let chars = chars_of(s);
    let start = run_end(&chars, 0, CharClass::Blank);
    assert(chars@.skip(0) == chars@);
    let ghost t = s@.skip(start as int);
    let mut end: usize = chars.len();
    assert(t.take(t.len() as int) == t);
    while start < end && test_blank(chars[end - 1])
        invariant
            start <= end <= chars@.len(),
            chars@ == s@,
            t == s@.skip(start as int),
            trailing_blanks(t) == chars@.len() - end + trailing_blanks(t.take(end - start)),
        decreases end,
    {
        let ghost u = t.take(end - start);
        assert(u.last() == chars@[end - 1]);
        assert(u.drop_last() == t.take(end - 1 - start));
        end = end - 1;
    }
    proof {
        let u = t.take(end - start);
        if start < end {
            assert(u.last() == chars@[end - 1]);
        }
        assert(trailing_blanks(u) == 0);
        assert(trimmed(s@) == s@.subrange(start as int, end as int));
    }
    s.substring_char(start, end)
}

/// The words of a line, in order.
pub fn split_words<'a>(line: &'a str) -> (r: Vec<&'a str>)
    ensures
        texts(r@) == words(line@),
{
    let chars = chars_of(line);
    let mut found: Vec<&'a str> = Vec::new();
    let mut at: usize = 0;
    let ghost mut rest = line@;
    assert(line@.skip(0) == line@);
    assert(texts(found@) + words(rest) == words(line@));
    loop
        invariant
            at <= chars@.len(),
            chars@ == line@,
            rest == line@.skip(at as int),
            texts(found@) + words(rest) == words(line@),
        ensures
            texts(found@) == words(line@),
        decreases chars@.len() - at,
    {
        let start = run_end(&chars, at, CharClass::Blank);
        let end = run_end(&chars, start, CharClass::Word);
        proof {
            lemma_run(rest, CharClass::Blank);
            assert(rest.skip(start - at) == line@.skip(start as int));
            lemma_run(line@.skip(start as int), CharClass::Word);
        }
        if start == chars.len() {
            assert(words(rest) == Seq::<Seq<char>>::empty());
            break;
        }
        let word = line.substring_char(start, end);
        let ghost before = found@;
        found.push(word);
        proof {
            let t = line@.skip(start as int);
            assert(t.take(end - start) == word@);
            assert(t.skip(end - start) == line@.skip(end as int));
            assert(words(rest) == seq![word@] + words(line@.skip(end as int)));
            assert(texts(found@) == texts(before) + seq![word@]);
            rest = line@.skip(end as int);
            assert(texts(before) + (seq![word@] + words(rest)) == texts(found@) + words(rest));
        }
        at = end;
    }
    found
}

/// One character with an ASCII letter in upper case.
pub fn to_upper_char(c: char) -> (r: char)
    ensures
        r == upper_char(c),
{
    if 'a' <= c && c <= 'z' {
        (c as u8 - 32) as char
    } else {
        c
    }
}

/// The text with its ASCII letters in upper case.
pub fn to_uppercase(s: &str) -> (r: String)
    ensures
        r@ == uppercase(s@),
{
    let chars = chars_of(s);
    let mut upper = String::new();
    let mut i: usize = 0;
    while i < chars.len()
        invariant
            i <= chars@.len(),
            chars@ == s@,
            upper@ == uppercase(s@).take(i as int),
        decreases chars@.len() - i,
    {
        upper.push(to_upper_char(chars[i]));
        assert(uppercase(s@).take(i + 1) == uppercase(s@).take(i as int).push(uppercase(s@)[i as int]));
        i = i + 1;
    }
    upper
}

/// Equality of two texts.
pub fn same(a: &str, b: &str) -> (r: bool)
    ensures
        r == (a@ == b@),
{
    let left = chars_of(a);
    let right = chars_of(b);
    if left.len() != right.len() {
        return false;
    }
    let mut i: usize = 0;
    while i < left.len()
        invariant
            i <= left@.len(),
            left@.len() == right@.len(),
            left@ == a@,
            right@ == b@,
            forall|j: int| 0 <= j < i ==> left@[j] == right@[j],
        decreases left@.len() - i,
    {
        if left[i] != right[i] {
            return false;
        }
        i = i + 1;
    }
    assert(a@ == b@);
    true
}

/// Equality of two texts up to the case of ASCII letters.
pub fn same_in_any_case(a: &str, b: &str) -> (r: bool)
    ensures
        r == same_ignoring_case(a@, b@),
{
    same(to_uppercase(a).as_str(), to_uppercase(b).as_str())
}

/// Whether the text starts with the prefix.
pub fn starts_with(s: &str, prefix: &str) -> (r: bool)
    ensures
        r == has_prefix(s@, prefix@),
{
    let n = prefix.unicode_len();
    if s.unicode_len() < n {
        return false;
    }
    same(s.substring_char(0, n), prefix)
}

/// Whether the piece occurs in the text.
pub fn contains(s: &str, part: &str) -> (r: bool)
    ensures
        r == occurs_in(part@, s@),
{
    let n = s.unicode_len();
    let m = part.unicode_len();
    if n < m {
        return false;
    }
    let mut i: usize = 0;
    while i <= n - m
        invariant
            m <= n,
            i <= n - m + 1,
            n == s@.len(),
            m == part@.len(),
            forall|j: int| 0 <= j < i ==> !occurs_at(part@, s@, j),
        decreases n - m + 1 - i,
    {
        if same(s.substring_char(i, i + m), part) {
            assert(occurs_at(part@, s@, i as int));
            return true;
        }
        if i == n - m {
            return false;
        }
        i = i + 1;
    }
    false
}

/// The pieces in order, with the separator between every two of them.
pub fn join(parts: &Vec<String>, separator: &str) -> (r: String)
    ensures
        r@ == joined(string_texts(parts@), separator@),
{
    let mut all = String::new();
    let mut i: usize = 0;
    let ghost pieces = string_texts(parts@);
    while i < parts.len()
        invariant
            i <= parts@.len(),
            pieces == string_texts(parts@),
            all@ == joined(pieces.take(i as int), separator@),
        decreases parts@.len() - i,
    {
        if i > 0 {
            all.append(separator);
        }
        all.append(parts[i].as_str());
        proof {
            let next = pieces.take(i + 1);
            assert(next.drop_last() == pieces.take(i as int));
            assert(next.last() == parts@[i as int]@);
            if i == 0 {
                assert(pieces.take(0).len() == 0);
                assert(all@ == parts@[0]@);
            }
        }
        i = i + 1;
    }
    assert(pieces.take(parts@.len() as int) == pieces);
    all
}

} // verus!
