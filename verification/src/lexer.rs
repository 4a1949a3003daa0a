//! From source text to tokens: splitting a line, and recognising a label.

use vstd::prelude::*;
use vstd::string::*;
use crate::model::Word;
use crate::value::Value;

verus! {

/// A token of a source line: its text, and the number that the host's float
/// parser reads in it, if it reads one.
pub struct Token {
    pub text: String,
    pub number: Option<Value>,
}

impl View for Token {
    type V = Word;

    open spec fn view(&self) -> Word {
        Word { text: self.text@, number: self.number }
    }
}

impl Token {
    /// The token with the given text and reading.
    pub fn new(text: &str, number: Option<Value>) -> (r: Token)
        ensures
            r@ == (Word { text: text@, number }),
    {
        Token { text: text.to_owned(), number }
    }
}

/// The tokens of a line as the model sees them.
pub open spec fn words(tokens: Seq<Token>) -> Seq<Word> {
    Seq::new(tokens.len(), |i: int| tokens[i]@)
}

/// Where the first space of `s` stands; the length of `s` if it holds none.
pub open spec fn first_space(s: Seq<char>) -> int
    decreases s.len(),
{
    if s.len() == 0 || s[0] == ' ' {
        0
    } else {
        1 + first_space(s.drop_first())
    }
}

/// The pieces of `s` between its spaces. Two spaces in a row enclose an
/// empty piece, and a text without a space is its own single piece.
pub open spec fn split(s: Seq<char>) -> Seq<Seq<char>>
    decreases s.len(),
{
    let i = first_space(s);
    if 0 <= i < s.len() {
        seq![s.take(i)] + split(s.skip(i + 1))
    } else {
        seq![s]
    }
}

/// Where the first space stands, given the stretch before it that holds
/// none.
pub proof fn lemma_first_space(s: Seq<char>, k: int)
    requires
        0 <= k <= s.len(),
        forall|j: int| 0 <= j < k ==> s[j] != ' ',
        k < s.len() ==> s[k] == ' ',
    ensures
        first_space(s) == k,
    decreases k,
{
    if k > 0 {
        let rest = s.drop_first();
        assert forall|j: int| 0 <= j < k - 1 implies rest[j] != ' ' by {
            assert(rest[j] == s[j + 1]);
        }
        lemma_first_space(rest, k - 1);
    }
}

/// What the first space is: no space stands before it, and a space stands
/// there unless the text holds none.
pub proof fn lemma_first_space_is_first(s: Seq<char>)
    ensures
        0 <= first_space(s) <= s.len(),
        forall|j: int| 0 <= j < first_space(s) ==> s[j] != ' ',
        first_space(s) < s.len() ==> s[first_space(s)] == ' ',
    decreases s.len(),
{
    if !(s.len() == 0 || s[0] == ' ') {
        let rest = s.drop_first();
        lemma_first_space_is_first(rest);
        assert forall|j: int| 0 <= j < first_space(s) implies s[j] != ' ' by {
            if j > 0 {
                assert(rest[j - 1] == s[j]);
            }
        }
        if first_space(s) < s.len() {
            assert(rest[first_space(rest)] == s[first_space(s)]);
        }
    }
}

/// The pieces with one space between each two of them.
pub open spec fn join(pieces: Seq<Seq<char>>) -> Seq<char>
    decreases pieces.len(),
{
    if pieces.len() == 0 {
        Seq::empty()
    } else if pieces.len() == 1 {
        pieces[0]
    } else {
        pieces[0] + seq![' '] + join(pieces.drop_first())
    }
}

/// Splitting loses nothing and leaves no space: the pieces, joined by
/// spaces, are the text again, there is at least one piece, and no piece
/// holds a space.
pub proof fn lemma_split_joins(s: Seq<char>)
    ensures
        split(s).len() >= 1,
        join(split(s)) == s,
        forall|i: int, j: int|
            0 <= i < split(s).len() && 0 <= j < split(s)[i].len() ==> (#[trigger] split(s)[i][j])
                != ' ',
    decreases s.len(),
{
    lemma_first_space_is_first(s);
    let k = first_space(s);
    if 0 <= k < s.len() {
        let rest = s.skip(k + 1);
        lemma_split_joins(rest);
        let pieces = split(s);
        assert(pieces.drop_first() =~= split(rest));
        assert(pieces[0] == s.take(k));
        assert(join(pieces) =~= s.take(k) + seq![' '] + rest);
        assert(s.take(k) + seq![' '] + rest =~= s);
        assert forall|i: int, j: int|
            0 <= i < pieces.len() && 0 <= j < pieces[i].len() implies (#[trigger] pieces[i][j])
            != ' ' by {
            if i > 0 {
                assert(pieces[i] == split(rest)[i - 1]);
            }
        }
    }
}

/// The pieces of a line as tokens that no number was read in yet.
pub open spec fn unread(pieces: Seq<Seq<char>>) -> Seq<Word> {
    Seq::new(pieces.len(), |i: int| Word { text: pieces[i], number: None })
}

/// Splits a line at its spaces. The tokens come without a reading: the host
/// sets `number` where its float parser accepts the text.
pub fn tokenize(line: &str) -> (r: Vec<Token>)
    ensures
        words(r@) == unread(split(line@)),
{
    let n: usize = line.unicode_len();
    let mut tokens: Vec<Token> = Vec::new();
    let mut start: usize = 0;
    let mut i: usize = 0;
    let ghost mut done: Seq<Seq<char>> = Seq::empty();
    proof {
        assert(line@.skip(0) =~= line@);
    }
    while i < n
        invariant
            n == line@.len(),
            start <= i <= n,
            forall|j: int| start <= j < i ==> line@[j] != ' ',
            split(line@) == done + split(line@.skip(start as int)),
            words(tokens@) == unread(done),
        decreases n - i,
    {
        if line.get_char(i) == ' ' {
            let piece = line.substring_char(start, i);
            proof {
                let rest = line@.skip(start as int);
                assert forall|j: int| 0 <= j < i - start implies rest[j] != ' ' by {
                    assert(rest[j] == line@[start + j]);
                }
                lemma_first_space(rest, i - start);
                assert(rest.take(i - start) =~= line@.subrange(start as int, i as int));
                assert(rest.skip(i - start + 1) =~= line@.skip(i + 1));
                assert(split(line@) =~= done.push(piece@) + split(line@.skip(i + 1)));
            }
            let ghost before = tokens@;
            tokens.push(Token::new(piece, None));
            proof {
                assert(words(before).len() == unread(done).len());
                assert forall|j: int| 0 <= j < before.len() implies words(tokens@)[j] == unread(
                    done.push(piece@),
                )[j] by {
                    assert(words(before)[j] == unread(done)[j]);
                }
                assert(words(tokens@) =~= unread(done.push(piece@)));
                done = done.push(piece@);
            }
            start = i + 1;
        }
        i = i + 1;
    }
    let piece = line.substring_char(start, n);
    proof {
        let rest = line@.skip(start as int);
        assert forall|j: int| 0 <= j < n - start implies rest[j] != ' ' by {
            assert(rest[j] == line@[start + j]);
        }
        lemma_first_space(rest, n - start);
        assert(rest =~= line@.subrange(start as int, n as int));
        assert(split(line@) =~= done.push(piece@));
    }
    let ghost before = tokens@;
    tokens.push(Token::new(piece, None));
    proof {
        assert(words(before).len() == unread(done).len());
        assert forall|j: int| 0 <= j < before.len() implies words(tokens@)[j] == unread(
            done.push(piece@),
        )[j] by {
            assert(words(before)[j] == unread(done)[j]);
        }
        assert(words(tokens@) =~= unread(split(line@)));
    }
    tokens
}

/// Letters and digits of ASCII and the underscore: what a name is made of.
pub open spec fn is_word_char(c: char) -> bool {
    ('a' <= c && c <= 'z') || ('A' <= c && c <= 'Z') || ('0' <= c && c <= '9') || c == '_'
}

/// How many word characters `s` begins with.
pub open spec fn word_run(s: Seq<char>) -> int
    decreases s.len(),
{
    if s.len() > 0 && is_word_char(s[0]) {
        1 + word_run(s.drop_first())
    } else {
        0
    }
}

/// The label that a text declares: the one or more word characters it
/// begins with, where a colon follows them.
pub open spec fn label(s: Seq<char>) -> Option<Seq<char>> {
    let k = word_run(s);
    if 1 <= k < s.len() && s[k] == ':' {
        Some(s.take(k))
    } else {
        None
    }
}

/// How long the run of word characters is, given its extent.
pub proof fn lemma_word_run(s: Seq<char>, k: int)
    requires
        0 <= k <= s.len(),
        forall|j: int| 0 <= j < k ==> is_word_char(s[j]),
        k < s.len() ==> !is_word_char(s[k]),
    ensures
        word_run(s) == k,
    decreases k,
{
    if k > 0 {
        let rest = s.drop_first();
        assert forall|j: int| 0 <= j < k - 1 implies is_word_char(rest[j]) by {
            assert(rest[j] == s[j + 1]);
        }
        lemma_word_run(rest, k - 1);
    }
}

fn word_char(c: char) -> (r: bool)
    ensures
        r == is_word_char(c),
{
    (c >= 'a' && c <= 'z') || (c >= 'A' && c <= 'Z') || (c >= '0' && c <= '9') || c == '_'
}

/// The label that the text declares, if it declares one.
pub fn label_of(text: &str) -> (r: Option<String>)
    ensures
        match r {
            Some(name) => label(text@) == Some(name@),
            None => label(text@) is None,
        },
{
    let n: usize = text.unicode_len();
    let mut k: usize = 0;
    while k < n && word_char(text.get_char(k))
        invariant
            n == text@.len(),
            k <= n,
            forall|j: int| 0 <= j < k ==> is_word_char(text@[j]),
        decreases n - k,
    {
        k = k + 1;
    }
    proof {
        lemma_word_run(text@, k as int);
    }
    if k >= 1 && k < n && text.get_char(k) == ':' {
        let name = text.substring_char(0, k);
        assert(name@ =~= text@.take(k as int));
        Some(name.to_owned())
    } else {
        None
    }
}

} // verus!
