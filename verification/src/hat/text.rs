//! Small helpers for working on text character by character.

use vstd::prelude::*;

verus! {

/// A stretch of a text, in characters: from `start` up to, not including,
/// `end`.
#[derive(Debug, Clone, Copy, PartialEq, Eq, Structural)]
pub struct Span {
    pub start: usize,
    pub end: usize,
}

/// The sixteen digits, lower case: the first ten are the decimal digits.
pub open spec fn digit_chars() -> Seq<char> {
    seq!['0', '1', '2', '3', '4', '5', '6', '7', '8', '9', 'a', 'b', 'c', 'd', 'e', 'f']
}

/// Whether `c` is white space: the characters that Unicode gives the
/// property `White_Space`.
pub open spec fn is_space(c: char) -> bool {
    let u = c as u32;
    ||| 0x09 <= u <= 0x0d
    ||| u == 0x20
    ||| u == 0x85
    ||| u == 0xa0
    ||| u == 0x1680
    ||| 0x2000 <= u <= 0x200a
    ||| u == 0x2028
    ||| u == 0x2029
    ||| u == 0x202f
    ||| u == 0x205f
    ||| u == 0x3000
}

/// Whether a word ends at `n`: the character before `n` belongs to a word,
/// and the text ends there or white space follows.
pub open spec fn ends_word(s: Seq<char>, n: int) -> bool {
    &&& 0 < n <= s.len()
    &&& !is_space(s[n - 1])
    &&& (n == s.len() || is_space(s[n]))
}

/// Where the word that reaches up to `n` starts: the first position of the
/// run of characters other than white space that ends at `n`.
pub open spec fn word_start(s: Seq<char>, n: int) -> int
    decreases n,
{
    if 0 < n <= s.len() && !is_space(s[n - 1]) {
        word_start(s, n - 1)
    } else {
        n
    }
}

/// The words of `s` that end within its first `n` characters, in order. A
/// word is a longest run of characters other than white space.
pub open spec fn words(s: Seq<char>, n: int) -> Seq<Span>
    decreases n,
{
    if n <= 0 {
        Seq::empty()
    } else if ends_word(s, n) {
        words(s, n - 1).push(Span { start: word_start(s, n) as usize, end: n as usize })
    } else {
        words(s, n - 1)
    }
}

/// A word starts no later than it ends, and not before the text.
pub proof fn lemma_word_start_bounds(s: Seq<char>, n: int)
    requires
        0 <= n <= s.len(),
    ensures
        0 <= word_start(s, n) <= n,
    decreases n,
{
    if 0 < n && !is_space(s[n - 1]) {
        lemma_word_start_bounds(s, n - 1);
    }
}

/// What reaches from the start of a word up to `n` holds no white space, and
/// the word cannot start any earlier: it starts the text, or white space
/// stands before it.
pub proof fn lemma_word_run(s: Seq<char>, n: int)
    requires
        0 <= n <= s.len(),
    ensures
        forall|i: int| word_start(s, n) <= i < n ==> !is_space(#[trigger] s[i]),
        word_start(s, n) == 0 || is_space(s[word_start(s, n) - 1]),
    decreases n,
{
    if 0 < n && !is_space(s[n - 1]) {
        lemma_word_run(s, n - 1);
    }
}

/// Every word lies within the text, and is not empty.
pub proof fn lemma_words_within(s: Seq<char>, n: int)
    requires
        0 <= n <= s.len() <= usize::MAX,
    ensures
        forall|k: int|
            0 <= k < words(s, n).len() ==> {
                &&& (#[trigger] words(s, n)[k]).start < words(s, n)[k].end
                &&& words(s, n)[k].end <= n
            },
    decreases n,
{
    if n > 0 {
        lemma_words_within(s, n - 1);
        if ends_word(s, n) {
            lemma_word_start_bounds(s, n - 1);
            let before = words(s, n - 1);
            let last = Span { start: word_start(s, n) as usize, end: n as usize };
            assert(words(s, n) == before.push(last));
            assert(word_start(s, n) == word_start(s, n - 1));
            assert forall|k: int| 0 <= k < words(s, n).len() implies {
                &&& (#[trigger] words(s, n)[k]).start < words(s, n)[k].end
                &&& words(s, n)[k].end <= n
            } by {
                if k < before.len() {
                    assert(words(s, n)[k] == before[k]);
                } else {
                    assert(words(s, n)[k] == last);
                }
            }
        } else {
            assert(words(s, n) == words(s, n - 1));
        }
    }
}

/// The characters of `s`, in order.
pub(crate) fn chars_of(s: &str) -> (v: Vec<char>)
    ensures
        v@ == s@,
{
    let mut v: Vec<char> = Vec::new();
    for c in it: s.chars()
        invariant
            it.seq() == s@,
            v@ == s@.take(it.index() as int),
    {
        v.push(c);
    }
    v
}

/// The digit for `n`, as text.
pub(crate) fn digit_text(n: u8) -> (t: &'static str)
    requires
        n < 16,
    ensures
        t@ == seq![digit_chars()[n as int]],
{
    proof {
        reveal_strlit("0");
        reveal_strlit("1");
        reveal_strlit("2");
        reveal_strlit("3");
        reveal_strlit("4");
        reveal_strlit("5");
        reveal_strlit("6");
        reveal_strlit("7");
        reveal_strlit("8");
        reveal_strlit("9");
        reveal_strlit("a");
        reveal_strlit("b");
        reveal_strlit("c");
        reveal_strlit("d");
        reveal_strlit("e");
        reveal_strlit("f");
    }
    let t = if n == 0 {
        "0"
    } else if n == 1 {
        "1"
    } else if n == 2 {
        "2"
    } else if n == 3 {
        "3"
    } else if n == 4 {
        "4"
    } else if n == 5 {
        "5"
    } else if n == 6 {
        "6"
    } else if n == 7 {
        "7"
    } else if n == 8 {
        "8"
    } else if n == 9 {
        "9"
    } else if n == 10 {
        "a"
    } else if n == 11 {
        "b"
    } else if n == 12 {
        "c"
    } else if n == 13 {
        "d"
    } else if n == 14 {
        "e"
    } else {
        "f"
    };
    assert(t@ =~= seq![digit_chars()[n as int]]);
    t
}

pub(crate) fn space(c: char) -> (b: bool)
    ensures
        b == is_space(c),
{
    let u: u32 = c as u32;
    (0x09 <= u && u <= 0x0d) || u == 0x20 || u == 0x85 || u == 0xa0 || u == 0x1680 || (0x2000 <= u
        && u <= 0x200a) || u == 0x2028 || u == 0x2029 || u == 0x202f || u == 0x205f || u == 0x3000
}

/// Splits `text` into its words.
pub(crate) fn split_words(text: &Vec<char>) -> (found: Vec<Span>)
    ensures
        found@ == words(text@, text@.len() as int),
{
    let n: usize = text.len();
    let mut found: Vec<Span> = Vec::new();
    let mut start: usize = 0;
    let mut i: usize = 0;
    while i < n
        invariant
            i <= n,
            n == text@.len(),
            found@ == words(text@, i as int),
            start == word_start(text@, i as int),
            start <= i,
        decreases n - i,
    {
        let c = text[i];
        i = i + 1;
        if space(c) {
            start = i;
        } else if i == n || space(text[i]) {
            found.push(Span { start, end: i });
        }
    }
    found
}

} // verus!
