//! The lexical layer of the instruction language: character classes, the
//! split of a line into words, and the shapes of operands.

use vstd::prelude::*;

verus! {

/// Whether `c` is whitespace: a character with the Unicode property
/// `White_Space`.
pub open spec fn is_space(c: char) -> bool {
    ||| 0x09 <= c as u32 <= 0x0d
    ||| c == ' '
    ||| c == '\u{85}'
    ||| c == '\u{a0}'
    ||| c == '\u{1680}'
    ||| 0x2000 <= c as u32 <= 0x200a
    ||| c == '\u{2028}'
    ||| c == '\u{2029}'
    ||| c == '\u{202f}'
    ||| c == '\u{205f}'
    ||| c == '\u{3000}'
}

/// Whether `c` is one of the ten decimal digits `0` to `9`.
pub open spec fn is_digit(c: char) -> bool {
    '0' as u32 <= c as u32 <= '9' as u32
}

/// Whether `c` is one of the letters `A` to `Z`.
pub open spec fn is_upper(c: char) -> bool {
    'A' as u32 <= c as u32 <= 'Z' as u32
}

/// The length of the longest prefix of `s` that holds no whitespace.
pub open spec fn word_len(s: Seq<char>) -> nat
    decreases s.len(),
{
    if s.len() > 0 && !is_space(s[0]) {
        1 + word_len(s.drop_first())
    } else {
        0
    }
}

/// The first word of a sequence that starts with one is not empty and lies
/// within the sequence.
pub proof fn lemma_word_len_bounds(s: Seq<char>)
    ensures
        word_len(s) <= s.len(),
        s.len() > 0 && !is_space(s[0]) ==> word_len(s) >= 1,
    decreases s.len(),
{
    if s.len() > 0 && !is_space(s[0]) {
        lemma_word_len_bounds(s.drop_first());
    }
}

#[via_fn]
proof fn words_decreases(s: Seq<char>) {
    lemma_word_len_bounds(s);
}

/// The words of `s`: its maximal runs of characters that are not whitespace,
/// from left to right.
pub open spec fn words(s: Seq<char>) -> Seq<Seq<char>>
    decreases s.len(),
    via words_decreases
{
    if s.len() == 0 {
        Seq::empty()
    } else if is_space(s[0]) {
        words(s.drop_first())
    } else {
        let n = word_len(s);
        seq![s.take(n as int)] + words(s.skip(n as int))
    }
}

/// Whether `s` is one or more decimal digits.
pub open spec fn digits(s: Seq<char>) -> bool {
    s.len() > 0 && forall|i: int| 0 <= i < s.len() ==> is_digit(#[trigger] s[i])
}

/// Whether `s` is one or more letters from `A` to `Z`.
pub open spec fn uppers(s: Seq<char>) -> bool {
    s.len() > 0 && forall|i: int| 0 <= i < s.len() ==> is_upper(#[trigger] s[i])
}

/// What the digit `c` counts for, from 0 to 9.
pub open spec fn digit_value(c: char) -> nat {
    if is_digit(c) {
        (c as u32 - '0' as u32) as nat
    } else {
        0
    }
}

/// The number that the digits `s` write in base ten.
pub open spec fn decimal(s: Seq<char>) -> nat
    decreases s.len(),
{
    if s.len() == 0 {
        0
    } else {
        decimal(s.drop_last()) * 10 + digit_value(s.last())
    }
}

/// The register that the word `w` names: `$` and digits. The grammar sets no
/// upper bound on the number; one beyond the machine word is recorded as the
/// largest index, which no register file reaches.
pub open spec fn register_of(w: Seq<char>) -> Option<usize> {
    if w.len() > 0 && w[0] == '$' && digits(w.skip(1)) {
        if decimal(w.skip(1)) > usize::MAX {
            Some(usize::MAX)
        } else {
            Some(decimal(w.skip(1)) as usize)
        }
    } else {
        None
    }
}

/// The immediate that the word `w` writes: digits, with `-` before them for a
/// negative number, whose value is a signed 32-bit integer.
pub open spec fn immediate_of(w: Seq<char>) -> Option<i32> {
    let negative = w.len() > 0 && w[0] == '-';
    let body = if negative { w.skip(1) } else { w };
    let value: int = if negative { -(decimal(body) as int) } else { decimal(body) as int };
    if digits(body) && i32::MIN <= value <= i32::MAX {
        Some(value as i32)
    } else {
        None
    }
}

/// The label that the word `w` refers to: `@` and capital letters. The name is
/// what follows the `@`.
pub open spec fn label_of(w: Seq<char>) -> Option<Seq<char>> {
    if w.len() > 0 && w[0] == '@' && uppers(w.skip(1)) {
        Some(w.skip(1))
    } else {
        None
    }
}

/// Whether the word `w` opens a comment: it starts with two slashes.
pub open spec fn opens_comment(w: Seq<char>) -> bool {
    w.len() >= 2 && w[0] == '/' && w[1] == '/'
}

/// Where the whitespace before word `k` starts: after the word before it,
/// or at the start of the text. With `k` the number of words, this is the
/// whitespace after the last word.
pub open spec fn gap_start(spans: Seq<(usize, usize)>, k: int) -> int {
    if k == 0 {
        0
    } else {
        spans[k - 1].1 as int
    }
}

/// Where the whitespace before word `k` ends: at the word, or at the end of
/// the text.
pub open spec fn gap_end(s: Seq<char>, spans: Seq<(usize, usize)>, k: int) -> int {
    if k == spans.len() {
        s.len() as int
    } else {
        spans[k].0 as int
    }
}

/// Whether `spans` gives, in order, the places of the words of `s`: the index
/// of the first character of each and the index after its last. A word holds
/// no whitespace, and nothing but whitespace lies between the words, before
/// the first and after the last.
pub open spec fn marks(s: Seq<char>, spans: Seq<(usize, usize)>) -> bool {
    &&& spans.len() == words(s).len()
    &&& forall|k: int|
        0 <= k < spans.len() ==> {
            &&& (#[trigger] spans[k]).0 < spans[k].1 <= s.len()
            &&& s.subrange(spans[k].0 as int, spans[k].1 as int) == words(s)[k]
            &&& k > 0 ==> spans[k - 1].1 < spans[k].0
        }
    &&& forall|k: int, i: int|
        #![trigger spans[k], s[i]]
        0 <= k < spans.len() && spans[k].0 <= i < spans[k].1 ==> !is_space(s[i])
    &&& forall|k: int, i: int|
        #![trigger gap_end(s, spans, k), s[i]]
        0 <= k <= spans.len() && gap_start(spans, k) <= i < gap_end(s, spans, k) ==> is_space(
            s[i],
        )
}

/// Whether `s` holds no whitespace.
pub open spec fn solid(s: Seq<char>) -> bool {
    forall|i: int| 0 <= i < s.len() ==> !is_space(#[trigger] s[i])
}

/// The first word of a text reaches up to its first whitespace.
pub proof fn lemma_word_len(s: Seq<char>)
    ensures
        word_len(s) <= s.len(),
        solid(s.take(word_len(s) as int)),
        word_len(s) < s.len() ==> is_space(s[word_len(s) as int]),
    decreases s.len(),
{
    if s.len() > 0 && !is_space(s[0]) {
        let rest = s.drop_first();
        lemma_word_len(rest);
        let n = word_len(s) as int;
        assert forall|i: int| 0 <= i < n implies !is_space(#[trigger] s.take(n)[i]) by {
            if i > 0 {
                assert(s.take(n)[i] == rest.take(n - 1)[i - 1]);
            }
        }
    }
}

/// Every word is at least one character long and holds no whitespace.
pub proof fn lemma_words_solid(s: Seq<char>)
    ensures
        forall|k: int|
            0 <= k < words(s).len() ==> (#[trigger] words(s)[k]).len() > 0 && solid(words(s)[k]),
    decreases s.len(),
{
    if s.len() > 0 && is_space(s[0]) {
        lemma_words_solid(s.drop_first());
        assert(words(s) == words(s.drop_first()));
    } else if s.len() > 0 {
        lemma_word_len(s);
        lemma_word_len_bounds(s);
        let n = word_len(s) as int;
        lemma_words_solid(s.skip(n));
        assert forall|k: int| 0 <= k < words(s).len() implies (#[trigger] words(s)[k]).len() > 0
            && solid(words(s)[k]) by {
            if k > 0 {
                assert(words(s)[k] == words(s.skip(n))[k - 1]);
            }
        }
    }
}

/// A text without whitespace is one word, unless it is empty.
pub proof fn lemma_words_of_word(w: Seq<char>)
    requires
        w.len() > 0,
        solid(w),
    ensures
        words(w) == seq![w],
        word_len(w) == w.len(),
{
    lemma_solid_prefix(w, Seq::empty());
    assert(w.take(w.len() as int) =~= w);
    assert(w.skip(w.len() as int) =~= Seq::<char>::empty());
    assert(words(Seq::<char>::empty()) =~= Seq::<Seq<char>>::empty());
}

/// The first word of a text that starts with `w`, which holds no
/// whitespace, and goes on with nothing or with whitespace, is `w`.
pub proof fn lemma_solid_prefix(w: Seq<char>, rest: Seq<char>)
    requires
        solid(w),
        rest.len() > 0 ==> is_space(rest[0]),
    ensures
        word_len(w + rest) == w.len(),
    decreases w.len(),
{
    if w.len() > 0 {
        assert((w + rest).drop_first() =~= w.drop_first() + rest);
        assert(solid(w.drop_first()));
        lemma_solid_prefix(w.drop_first(), rest);
    }
}

/// Whitespace in front of a text adds no word.
pub proof fn lemma_words_after_space(c: char, rest: Seq<char>)
    requires
        is_space(c),
    ensures
        words(seq![c] + rest) == words(rest),
{
    assert((seq![c] + rest).drop_first() =~= rest);
}

/// A word followed by whitespace is the first word of the text, and the
/// words of what comes after the whitespace follow it.
pub proof fn lemma_words_after_word(w: Seq<char>, c: char, rest: Seq<char>)
    requires
        w.len() > 0,
        solid(w),
        is_space(c),
    ensures
        words(w + seq![c] + rest) == seq![w] + words(rest),
{
    let s = w + seq![c] + rest;
    let tail = seq![c] + rest;
    assert(s =~= w + tail);
    lemma_solid_prefix(w, tail);
    assert(s.take(w.len() as int) =~= w);
    assert(s.skip(w.len() as int) =~= tail);
    lemma_words_after_space(c, rest);
}

/// A prefix of digits writes no larger a number than the whole.
pub proof fn lemma_decimal_prefix(s: Seq<char>, k: int)
    requires
        0 <= k <= s.len(),
    ensures
        decimal(s.take(k)) <= decimal(s),
    decreases s.len() - k,
{
    if k < s.len() {
        lemma_decimal_prefix(s, k + 1);
        assert(s.take(k + 1).drop_last() =~= s.take(k));
    } else {
        assert(s.take(k) =~= s);
    }
}

/// Whether `c` is whitespace.
pub fn space(c: char) -> (b: bool)
    ensures
        b == is_space(c),
{
    let n: u32 = c as u32;
    (0x09 <= n && n <= 0x0d) || n == 0x20 || n == 0x85 || n == 0xa0 || n == 0x1680 || (0x2000 <= n
        && n <= 0x200a) || n == 0x2028 || n == 0x2029 || n == 0x202f || n == 0x205f || n == 0x3000
}

/// Whether `c` is a decimal digit.
pub fn digit(c: char) -> (b: bool)
    ensures
        b == is_digit(c),
{
    '0' <= c && c <= '9'
}

/// Whether `c` is a capital letter from `A` to `Z`.
pub fn upper(c: char) -> (b: bool)
    ensures
        b == is_upper(c),
{
    'A' <= c && c <= 'Z'
}

/// The characters of `text`, in order.
pub fn chars_of(text: &str) -> (chars: Vec<char>)
    ensures
        chars@ == text@,
{
    let mut chars: Vec<char> = Vec::new();
    for c in it: text.chars()
        invariant
            it.seq() == text@,
            chars@ == it.seq().take(it.index()),
    {
        chars.push(c);
    }
    chars
}

/// The places of the words of `chars`.
pub fn split(chars: &Vec<char>) -> (spans: Vec<(usize, usize)>)
    ensures
        marks(chars@, spans@),
{
    let n = chars.len();
    let mut spans: Vec<(usize, usize)> = Vec::new();
    let ghost mut done: Seq<Seq<char>> = Seq::empty();
    let mut i: usize = 0;
    assert(chars@.skip(0) =~= chars@);
    while i < n
        invariant
            i <= n,
            n == chars.len(),
            done.len() == spans.len(),
            gap_start(spans@, spans.len() as int) <= i,
            spans.len() > 0 && gap_start(spans@, spans.len() as int) == i && i < n ==> is_space(
                chars@[i as int],
            ),
            forall|k: int|
                0 <= k < spans.len() ==> {
                    &&& (#[trigger] spans[k]).0 < spans[k].1 <= n
                    &&& chars@.subrange(spans[k].0 as int, spans[k].1 as int) == done[k]
                    &&& k > 0 ==> spans[k - 1].1 < spans[k].0
                },
            forall|k: int, j: int|
                #![trigger spans[k], chars@[j]]
                0 <= k < spans.len() && spans[k].0 <= j < spans[k].1 ==> !is_space(chars@[j]),
            forall|k: int, j: int|
                #![trigger gap_end(chars@, spans@, k), chars@[j]]
                0 <= k < spans.len() && gap_start(spans@, k) <= j < gap_end(chars@, spans@, k)
                    ==> is_space(chars@[j]),
            forall|j: int|
                gap_start(spans@, spans.len() as int) <= j < i ==> is_space(#[trigger] chars@[j]),
            words(chars@) == done + words(chars@.skip(i as int)),
        decreases n - i,
    {
        let ghost rest = chars@.skip(i as int);
        if space(chars[i]) {
            assert(rest.drop_first() =~= chars@.skip(i + 1));
            i += 1;
        } else {
            let start = i;
            let mut j: usize = i + 1;
            assert(rest.drop_first() =~= chars@.skip(j as int));
            while j < n && !space(chars[j])
                invariant
                    start < j <= n,
                    n == chars.len(),
                    forall|k: int| start <= k < j ==> !is_space(#[trigger] chars@[k]),
                    word_len(chars@.skip(start as int)) == (j - start) + word_len(
                        chars@.skip(j as int),
                    ),
                decreases n - j,
            {
                assert(chars@.skip(j as int).drop_first() =~= chars@.skip(j + 1));
                j += 1;
            }
            let ghost word = chars@.subrange(start as int, j as int);
            let ghost before = spans@;
            proof {
                assert(rest.take(j - start) =~= word);
                assert(rest.skip(j - start) =~= chars@.skip(j as int));
                done = done.push(word);
            }
            spans.push((start, j));
            proof {
                assert forall|k: int, c: int|
                    #![trigger gap_end(chars@, spans@, k), chars@[c]]
                    0 <= k < spans.len() && gap_start(spans@, k) <= c < gap_end(
                        chars@,
                        spans@,
                        k,
                    ) implies is_space(chars@[c]) by {
                    if k < before.len() {
                        assert(gap_end(chars@, before, k) == gap_end(chars@, spans@, k));
                    }
                }
            }
            i = j;
        }
    }
    spans
}

/// Whether the characters of `chars` from `from` up to `to` spell `word`.
pub fn spells(chars: &Vec<char>, from: usize, to: usize, word: &str) -> (b: bool)
    requires
        from <= to <= chars.len(),
    ensures
        b == (chars@.subrange(from as int, to as int) == word@),
{
    let n = word.unicode_len();
    if to - from != n {
        return false;
    }
    let mut i: usize = 0;
    while i < n
        invariant
            i <= n,
            n == word@.len(),
            to - from == n,
            from <= to <= chars.len(),
            forall|k: int| 0 <= k < i ==> chars@[from + k] == word@[k],
        decreases n - i,
    {
        if chars[from + i] != word.get_char(i) {
            return false;
        }
        i += 1;
    }
    assert(chars@.subrange(from as int, to as int) =~= word@);
    true
}

/// Whether the characters from `from` up to `to` are one or more digits.
pub fn all_digits(chars: &Vec<char>, from: usize, to: usize) -> (b: bool)
    requires
        from <= to <= chars.len(),
    ensures
        b == digits(chars@.subrange(from as int, to as int)),
{
    if from == to {
        return false;
    }
    let ghost s = chars@.subrange(from as int, to as int);
    let mut i: usize = from;
    while i < to
        invariant
            from <= i <= to <= chars.len(),
            s == chars@.subrange(from as int, to as int),
            forall|k: int| 0 <= k < i - from ==> is_digit(#[trigger] s[k]),
        decreases to - i,
    {
        if !digit(chars[i]) {
            assert(!is_digit(s[i - from]));
            return false;
        }
        i += 1;
    }
    true
}

/// Whether the characters from `from` up to `to` are one or more capital
/// letters.
pub fn all_uppers(chars: &Vec<char>, from: usize, to: usize) -> (b: bool)
    requires
        from <= to <= chars.len(),
    ensures
        b == uppers(chars@.subrange(from as int, to as int)),
{
    if from == to {
        return false;
    }
    let ghost s = chars@.subrange(from as int, to as int);
    let mut i: usize = from;
    while i < to
        invariant
            from <= i <= to <= chars.len(),
            s == chars@.subrange(from as int, to as int),
            forall|k: int| 0 <= k < i - from ==> is_upper(#[trigger] s[k]),
        decreases to - i,
    {
        if !upper(chars[i]) {
            assert(!is_upper(s[i - from]));
            return false;
        }
        i += 1;
    }
    true
}

/// The number that the digits from `from` up to `to` write, unless it is
/// larger than `cap`.
pub fn number(chars: &Vec<char>, from: usize, to: usize, cap: u64) -> (r: Option<u64>)
    requires
        from <= to <= chars.len(),
        digits(chars@.subrange(from as int, to as int)),
    ensures
        r == (if decimal(chars@.subrange(from as int, to as int)) <= cap {
            Some(decimal(chars@.subrange(from as int, to as int)) as u64)
        } else {
            None
        }),
{
    let ghost s = chars@.subrange(from as int, to as int);
    let mut value: u64 = 0;
    let mut i: usize = from;
    while i < to
        invariant
            from <= i <= to <= chars.len(),
            s == chars@.subrange(from as int, to as int),
            digits(s),
            value == decimal(s.take(i - from)),
            value <= cap,
        decreases to - i,
    {
        let c = chars[i];
        assert(is_digit(s[i - from]));
        let d: u64 = (c as u32 - '0' as u32) as u64;
        let next: u128 = value as u128 * 10 + d as u128;
        assert(s.take(i - from + 1).drop_last() =~= s.take(i - from));
        if next > cap as u128 {
            proof {
                lemma_decimal_prefix(s, i - from + 1);
            }
            return None;
        }
        value = next as u64;
        i += 1;
    }
    assert(s.take(to - from) =~= s);
    Some(value)
}

/// A line of source text together with the places of its words.
pub struct Line<'a> {
    text: &'a str,
    chars: Vec<char>,
    spans: Vec<(usize, usize)>,
}

impl<'a> Line<'a> {
    #[verifier::type_invariant]
    spec fn well_formed(&self) -> bool {
        self.chars@ == self.text@ && marks(self.chars@, self.spans@)
    }

    /// The text of the line.
    pub closed spec fn text(&self) -> Seq<char> {
        self.text@
    }

    /// The words of the line.
    pub open spec fn words(&self) -> Seq<Seq<char>> {
        words(self.text())
    }

    /// Splits `text` into its words.
    pub fn scan(text: &'a str) -> (line: Line<'a>)
        ensures
            line.text() == text@,
    {
        let chars = chars_of(text);
        let spans = split(&chars);
        Line { text, chars, spans }
    }

    /// How many words the line has.
    pub fn len(&self) -> (n: usize)
        ensures
            n == self.words().len(),
    {
        proof {
            use_type_invariant(self);
        }
        self.spans.len()
    }

    /// Whether word `k` is `word`.
    pub fn word_is(&self, k: usize, word: &str) -> (b: bool)
        requires
            k < self.words().len(),
        ensures
            b == (self.words()[k as int] == word@),
    {
        proof {
            use_type_invariant(self);
        }
        let (from, to) = self.spans[k];
        spells(&self.chars, from, to, word)
    }

    /// Whether word `k` opens a comment.
    pub fn comment(&self, k: usize) -> (b: bool)
        requires
            k < self.words().len(),
        ensures
            b == opens_comment(self.words()[k as int]),
    {
        proof {
            use_type_invariant(self);
        }
        let (from, to) = self.spans[k];
        to - from >= 2 && self.chars[from] == '/' && self.chars[from + 1] == '/'
    }

    /// The register that word `k` names, if it names one.
    pub fn register(&self, k: usize) -> (r: Option<usize>)
        requires
            k < self.words().len(),
        ensures
            r == register_of(self.words()[k as int]),
    {
        proof {
            use_type_invariant(self);
        }
        let (from, to) = self.spans[k];
        let ghost w = self.chars@.subrange(from as int, to as int);
        assert(w.skip(1) =~= self.chars@.subrange(from + 1, to as int));
        if self.chars[from] == '$' && all_digits(&self.chars, from + 1, to) {
            match number(&self.chars, from + 1, to, usize::MAX as u64) {
                Some(index) => Some(index as usize),
                None => Some(usize::MAX),
            }
        } else {
            None
        }
    }

    /// The immediate that word `k` writes, if it writes one.
    pub fn immediate(&self, k: usize) -> (r: Option<i32>)
        requires
            k < self.words().len(),
        ensures
            r == immediate_of(self.words()[k as int]),
    {
        proof {
            use_type_invariant(self);
        }
        let (from, to) = self.spans[k];
        let ghost w = self.chars@.subrange(from as int, to as int);
        assert(w.skip(1) =~= self.chars@.subrange(from + 1, to as int));
        if self.chars[from] == '-' {
            if !all_digits(&self.chars, from + 1, to) {
                return None;
            }
            match number(&self.chars, from + 1, to, 0x8000_0000) {
                Some(magnitude) => {
                    let value: i64 = -(magnitude as i64);
                    Some(value as i32)
                },
                None => None,
            }
        } else {
            if !all_digits(&self.chars, from, to) {
                return None;
            }
            match number(&self.chars, from, to, 0x7fff_ffff) {
                Some(magnitude) => Some(magnitude as i32),
                None => None,
            }
        }
    }

    /// Whether word `k` refers to a label.
    pub fn is_label(&self, k: usize) -> (b: bool)
        requires
            k < self.words().len(),
        ensures
            b == label_of(self.words()[k as int]) is Some,
    {
        proof {
            use_type_invariant(self);
        }
        let (from, to) = self.spans[k];
        let ghost w = self.chars@.subrange(from as int, to as int);
        assert(w.skip(1) =~= self.chars@.subrange(from + 1, to as int));
        self.chars[from] == '@' && all_uppers(&self.chars, from + 1, to)
    }

    /// The name of the label that word `k` refers to, if it refers to one.
    pub fn label(&self, k: usize) -> (r: Option<String>)
        requires
            k < self.words().len(),
        ensures
            match r {
                Some(name) => label_of(self.words()[k as int]) == Some(name@),
                None => label_of(self.words()[k as int]) is None,
            },
    {
        proof {
            use_type_invariant(self);
        }
        if self.is_label(k) {
            let (from, to) = self.spans[k];
            Some(self.text.substring_char(from + 1, to).to_owned())
        } else {
            None
        }
    }
}

} // verus!
