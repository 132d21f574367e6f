use vstd::prelude::*;
use vstd::string::*;

verus! {

broadcast use vstd::string::group_string_axioms;

/// Unicode's White_Space property.
pub open spec fn is_white(c: char) -> bool {
    ('\t' <= c && c <= '\r') || c == ' ' || c == '\u{85}' || c == '\u{a0}' || c == '\u{1680}'
        || ('\u{2000}' <= c && c <= '\u{200a}') || c == '\u{2028}' || c == '\u{2029}' || c
        == '\u{202f}' || c == '\u{205f}' || c == '\u{3000}'
}

/// `s` without its leading white space.
pub open spec fn trim_start_spec(s: Seq<char>) -> Seq<char>
    decreases s.len(),
{
    if s.len() > 0 && is_white(s[0]) {
        trim_start_spec(s.drop_first())
    } else {
        s
    }
}

/// `s` without its trailing white space.
pub open spec fn trim_end_spec(s: Seq<char>) -> Seq<char>
    decreases s.len(),
{
    if s.len() > 0 && is_white(s.last()) {
        trim_end_spec(s.drop_last())
    } else {
        s
    }
}

/// The pieces of `s` between runs of one or more white-space characters, in
/// order. A run at either end leaves an empty piece there; an empty `s` is one
/// empty piece.
pub open spec fn pieces(s: Seq<char>) -> Seq<Seq<char>>
    decreases s.len(),
{
    if s.len() == 0 {
        seq![Seq::empty()]
    } else {
        let rest = pieces(s.drop_first());
        if !is_white(s[0]) {
            rest.update(0, seq![s[0]] + rest[0])
        } else if s.len() > 1 && is_white(s[1]) {
            rest
        } else {
            seq![Seq::<char>::empty()] + rest
        }
    }
}

/// The characters that a token loses at either end.
pub open spec fn is_punctuation(c: char) -> bool {
    c == '.' || c == ',' || c == '!' || c == '?' || c == '"' || c == '[' || c == ']' || c == '('
        || c == ')'
}

/// `s` without one punctuation character at its start, if it has one there.
pub open spec fn strip_start_spec(s: Seq<char>) -> Seq<char> {
    if s.len() > 0 && is_punctuation(s[0]) {
        s.drop_first()
    } else {
        s
    }
}

/// `s` without one punctuation character at its end, if it has one there.
pub open spec fn strip_end_spec(s: Seq<char>) -> Seq<char> {
    if s.len() > 0 && is_punctuation(s.last()) {
        s.drop_last()
    } else {
        s
    }
}

/// A token: at most one punctuation character removed from the start, then at
/// most one from the end of what remains.
pub open spec fn strip_spec(s: Seq<char>) -> Seq<char> {
    strip_end_spec(strip_start_spec(s))
}

/// The tokens of a text: the text trimmed of white space at both ends, split on
/// runs of white space, each piece stripped of punctuation.
pub open spec fn words_of(s: Seq<char>) -> Seq<Seq<char>> {
    pieces(trim_end_spec(trim_start_spec(s))).map_values(|w: Seq<char>| strip_spec(w))
}

pub fn is_punctuation_char(c: char) -> (r: bool)
    ensures
        r == is_punctuation(c),
{
    c == '.' || c == ',' || c == '!' || c == '?' || c == '"' || c == '[' || c == ']' || c == '('
        || c == ')'
}

/// Removes at most one punctuation character from the start of `s`, then at
/// most one from the end of what remains.
pub fn strip_punctuation(s: &str) -> (r: &str)
    ensures
        r@ == strip_spec(s@),
{
    let n = s.unicode_len();
    let clean = if n > 0 && is_punctuation_char(s.get_char(0)) {
        s.substring_char(1, n)
    } else {
        s
    };
    let m = clean.unicode_len();
    if m > 0 && is_punctuation_char(clean.get_char(m - 1)) {
        clean.substring_char(0, m - 1)
    } else {
        clean
    }
}

/// Splits a text into tokens: trims white space at both ends, splits on runs of
/// white space (newlines included) and strips punctuation from each piece. An
/// empty or all-white text gives one empty token.
pub fn split_words(s: &str) -> (r: Vec<&str>)
    ensures
        r@.map_values(|w: &str| w@) == words_of(s@),
        r@.len() >= 1,
{
    let input = trim_end(trim_start(s));
    let words = split_white(input);
    proof {
        lemma_pieces_nonempty(input@);
    }
    let mut output: Vec<&str> = Vec::new();
    let mut i: usize = 0;
    while i < words.len()
        invariant
            i <= words@.len(),
            words@.map_values(|w: &str| w@) == pieces(input@),
            output@.len() == i,
            forall|k: int| 0 <= k < i ==> (#[trigger] output@[k])@ == strip_spec(words@[k]@),
        decreases words@.len() - i,
    {
        output.push(strip_punctuation(words[i]));
        i = i + 1;
    }
    proof {
        let lhs = output@.map_values(|w: &str| w@);
        let rhs = words_of(s@);
        assert(rhs.len() == words@.len());
        assert forall|k: int| 0 <= k < lhs.len() implies lhs[k] == rhs[k] by {
            assert(pieces(input@)[k] == words@[k]@);
        }
        assert(lhs =~= rhs);
    }
    output
}

/// Lower-cases a word and reduces it to its English stem.
pub fn stem(s: &str) -> (r: String)
    ensures
        r@ == english_stem_of(lower_of(s@)),
{
    let lower = to_lower(s);
    english_stem(lower.as_str())
}

pub proof fn lemma_pieces_nonempty(s: Seq<char>)
    ensures
        pieces(s).len() >= 1,
    decreases s.len(),
{
    if s.len() > 0 {
        lemma_pieces_nonempty(s.drop_first());
    }
}

/// Words joined by single spaces.
pub open spec fn join_spaced(words: Seq<Seq<char>>) -> Seq<char>
    decreases words.len(),
{
    if words.len() == 0 {
        Seq::empty()
    } else if words.len() == 1 {
        words[0]
    } else {
        words[0] + seq![' '] + join_spaced(words.drop_first())
    }
}

/// A word of clean text: not empty, no white space in it, no punctuation at
/// either end.
pub open spec fn is_clean_word(w: Seq<char>) -> bool {
    &&& w.len() > 0
    &&& forall|i: int| 0 <= i < w.len() ==> !is_white(#[trigger] w[i])
    &&& !is_punctuation(w[0])
    &&& !is_punctuation(w.last())
}

/// Tokenizing clean text (clean words joined by single spaces) gives back
/// exactly its space-delimited words.
pub proof fn lemma_clean_text_tokens(words: Seq<Seq<char>>)
    requires
        words.len() >= 1,
        forall|i: int| 0 <= i < words.len() ==> is_clean_word(#[trigger] words[i]),
    ensures
        words_of(join_spaced(words)) == words,
{
    let s = join_spaced(words);
    lemma_join_ends(words);
    assert(trim_start_spec(s) == s);
    assert(trim_end_spec(s) == s);
    lemma_pieces_of_join(words);
    let r = pieces(s).map_values(|w: Seq<char>| strip_spec(w));
    assert forall|i: int| 0 <= i < words.len() implies r[i] == words[i] by {
        assert(is_clean_word(words[i]));
    }
    assert(r =~= words);
}

/// The text of clean words starts with the first word's first character and
/// ends with the last word's last character.
proof fn lemma_join_ends(words: Seq<Seq<char>>)
    requires
        words.len() >= 1,
        forall|i: int| 0 <= i < words.len() ==> is_clean_word(#[trigger] words[i]),
    ensures
        join_spaced(words).len() > 0,
        join_spaced(words)[0] == words[0][0],
        join_spaced(words).last() == words.last().last(),
    decreases words.len(),
{
    assert(is_clean_word(words[0]));
    if words.len() > 1 {
        let rest = words.drop_first();
        assert forall|i: int| 0 <= i < rest.len() implies is_clean_word(#[trigger] rest[i]) by {
            assert(rest[i] == words[i + 1]);
        }
        lemma_join_ends(rest);
    }
}

proof fn lemma_pieces_of_join(words: Seq<Seq<char>>)
    requires
        words.len() >= 1,
        forall|i: int| 0 <= i < words.len() ==> is_clean_word(#[trigger] words[i]),
    ensures
        pieces(join_spaced(words)) == words,
    decreases words.len(),
{
    let w = words[0];
    assert(is_clean_word(w));
    if words.len() == 1 {
        lemma_pieces_after_word(w, Seq::empty());
        assert(w + Seq::<char>::empty() =~= w);
        assert(pieces(Seq::<char>::empty()).update(0, w + Seq::<char>::empty()) =~= words);
    } else {
        let rest = words.drop_first();
        assert forall|i: int| 0 <= i < rest.len() implies is_clean_word(#[trigger] rest[i]) by {
            assert(rest[i] == words[i + 1]);
        }
        lemma_pieces_of_join(rest);
        lemma_join_ends(rest);
        let t = join_spaced(rest);
        let sp = seq![' '] + t;
        assert(sp.drop_first() =~= t);
        lemma_pieces_nonempty(t);
        assert(pieces(sp) == seq![Seq::<char>::empty()] + pieces(t));
        lemma_pieces_after_word(w, sp);
        assert(w + seq![' '] + t =~= w + sp);
        assert(w + Seq::<char>::empty() =~= w);
        assert((seq![Seq::<char>::empty()] + rest).update(0, w) =~= words);
    }
}

/// Pieces of a word without white space followed by more text: the word joins
/// the first piece of the rest.
proof fn lemma_pieces_after_word(w: Seq<char>, t: Seq<char>)
    requires
        forall|i: int| 0 <= i < w.len() ==> !is_white(#[trigger] w[i]),
    ensures
        pieces(w + t) == pieces(t).update(0, w + pieces(t)[0]),
    decreases w.len(),
{
    lemma_pieces_nonempty(t);
    if w.len() == 0 {
        assert(w + t =~= t);
        assert(w + pieces(t)[0] =~= pieces(t)[0]);
        assert(pieces(t).update(0, pieces(t)[0]) =~= pieces(t));
    } else {
        let w1 = w.drop_first();
        assert forall|i: int| 0 <= i < w1.len() implies !is_white(#[trigger] w1[i]) by {
            assert(w1[i] == w[i + 1]);
        }
        lemma_pieces_after_word(w1, t);
        assert((w + t).drop_first() =~= w1 + t);
        assert(!is_white((w + t)[0]));
        assert(seq![w[0]] + (w1 + pieces(t)[0]) =~= w + pieces(t)[0]);
        assert(pieces(t).update(0, w1 + pieces(t)[0]).update(0, w + pieces(t)[0]) =~= pieces(
            t,
        ).update(0, w + pieces(t)[0]));
    }
}

/// What the Porter-family English stemmer makes of a word.
pub uninterp spec fn english_stem_of(s: Seq<char>) -> Seq<char>;

/// Unicode lower-casing of a text.
pub uninterp spec fn lower_of(s: Seq<char>) -> Seq<char>;

/// Relies on str::trim_start: drops the leading White_Space characters.
#[verifier::external_body]
fn trim_start(s: &str) -> (r: &str)
    ensures
        r@ == trim_start_spec(s@),
{
    s.trim_start()
}

/// Relies on str::trim_end: drops the trailing White_Space characters.
#[verifier::external_body]
fn trim_end(s: &str) -> (r: &str)
    ensures
        r@ == trim_end_spec(s@),
{
    s.trim_end()
}

/// Relies on regex::Regex::split with `\s+` (Unicode White_Space, greedy): the
/// pieces between maximal runs of white space, in order, an empty one where a
/// run touches either end, one empty piece for an empty text.
#[verifier::external_body]
fn split_white(s: &str) -> (r: Vec<&str>)
    ensures
        r@.map_values(|w: &str| w@) == pieces(s@),
{
    regex::Regex::new(r"(?m)\s+").unwrap().split(s).collect()
}

/// Relies on str::to_lowercase: the result depends on the characters alone.
#[verifier::external_body]
fn to_lower(s: &str) -> (r: String)
    ensures
        r@ == lower_of(s@),
{
    s.to_lowercase()
}

/// Relies on rust_stemmers' English stemmer: the stem depends on the word alone.
#[verifier::external_body]
fn english_stem(s: &str) -> (r: String)
    ensures
        r@ == english_stem_of(s@),
{
    rust_stemmers::Stemmer::create(rust_stemmers::Algorithm::English).stem(s).to_string()
}

} // verus!
