use vstd::prelude::*;

verus! {

/// `String::push` appends one character to the end of the string.
pub assume_specification[ String::push ](s: &mut String, c: char)
    ensures
        final(s)@ == old(s)@.push(c),
;

/// The white-space characters: the code points that carry the Unicode
/// property `White_Space`.
pub open spec fn is_space(c: char) -> bool {
    let n = c as u32;
    ||| 0x09 <= n <= 0x0D
    ||| n == 0x20
    ||| n == 0x85
    ||| n == 0xA0
    ||| n == 0x1680
    ||| 0x2000 <= n <= 0x200A
    ||| n == 0x2028
    ||| n == 0x2029
    ||| n == 0x202F
    ||| n == 0x205F
    ||| n == 0x3000
}

/// Whether `c` is a white-space character.
pub fn is_whitespace(c: char) -> (r: bool)
    ensures
        r == is_space(c),
{
    let n: u32 = c as u32;
    (0x09 <= n && n <= 0x0D) || n == 0x20 || n == 0x85 || n == 0xA0 || n == 0x1680 || (0x2000 <= n
        && n <= 0x200A) || n == 0x2028 || n == 0x2029 || n == 0x202F || n == 0x205F || n == 0x3000
}

/// What `str::to_lowercase` makes of a text.
pub uninterp spec fn lowercased(s: Seq<char>) -> Seq<char>;

/// Calls `str::to_lowercase`: the lowercase form of `s`, which is a function
/// of the text alone.
#[verifier::external_body]
pub(crate) fn lowercase(s: &str) -> (r: String)
    ensures
        r@ == lowercased(s@),
{
    s.to_lowercase()
}

/// Whether `a` and `b` hold the same characters.
pub fn same_text(a: &str, b: &str) -> (r: bool)
    ensures
        r == (a@ == b@),
{
    a.to_owned() == b.to_owned()
}

/// The characters of `s`, in order.
pub fn chars_of(s: &str) -> (v: Vec<char>)
    ensures
        v@ == s@,
{
    let mut v: Vec<char> = Vec::new();
    let chars = s.chars();
    for c in it: chars
        invariant
            it.seq() == s@,
            v@ == it.seq().take(it.index()),
    {
        v.push(c);
    }
    v
}

/// A text is blank when it holds nothing but white space.
pub open spec fn is_blank(s: Seq<char>) -> bool {
    forall|i: int| 0 <= i < s.len() ==> is_space(#[trigger] s[i])
}

/// Whether `s` holds nothing but white space.
pub fn blank(s: &str) -> (r: bool)
    ensures
        r == is_blank(s@),
{
    let chars = s.chars();
    for c in it: chars
        invariant
            it.seq() == s@,
            is_blank(it.seq().take(it.index())),
    {
        if !is_whitespace(c) {
            assert(!is_space(s@[it.index()]));
            return false;
        }
        assert(it.seq().take(it.index() + 1) == it.seq().take(it.index()).push(c));
    }
    assert(s@.take(s@.len() as int) == s@);
    true
}

/// The words of a text: its maximal runs of characters that are not white
/// space, in order.
pub open spec fn words(s: Seq<char>) -> Seq<Seq<char>>
    decreases s.len(),
{
    if s.len() == 0 {
        Seq::empty()
    } else {
        let before = words(s.drop_last());
        let c = s.last();
        if is_space(c) {
            before
        } else if s.len() == 1 || is_space(s[s.len() - 2]) {
            before.push(seq![c])
        } else {
            before.drop_last().push(before.last().push(c))
        }
    }
}

/// The words `ws` with one space between each two neighbours.
pub open spec fn join_words(ws: Seq<Seq<char>>) -> Seq<char>
    decreases ws.len(),
{
    if ws.len() == 0 {
        Seq::empty()
    } else if ws.len() == 1 {
        ws[0]
    } else {
        join_words(ws.drop_last()) + seq![' '] + ws.last()
    }
}

/// A text with its white space normalized: the words of the text, joined by
/// single spaces.
pub open spec fn normalized(s: Seq<char>) -> Seq<char> {
    join_words(words(s))
}

/// A word: at least one character, none of them white space.
pub open spec fn is_word(w: Seq<char>) -> bool {
    w.len() > 0 && forall|i: int| 0 <= i < w.len() ==> !is_space(#[trigger] w[i])
}

/// Every word of a text is a word, and a text that ends in a character that
/// is not white space has at least one.
pub proof fn lemma_words_are_words(s: Seq<char>)
    ensures
        forall|k: int| 0 <= k < words(s).len() ==> is_word(#[trigger] words(s)[k]),
        s.len() > 0 && !is_space(s.last()) ==> words(s).len() > 0,
        words(s).len() == 0 <==> is_blank(s),
    decreases s.len(),
{
    if s.len() > 0 {
        let before = words(s.drop_last());
        let c = s.last();
        lemma_words_are_words(s.drop_last());
        if is_space(c) {
            assert forall|i: int| 0 <= i < s.len() && is_blank(s.drop_last()) implies is_space(
                #[trigger] s[i],
            ) by {
                if i < s.len() - 1 {
                    assert(s.drop_last()[i] == s[i]);
                }
            }
            if is_blank(s) {
                assert forall|i: int| 0 <= i < s.drop_last().len() implies is_space(
                    #[trigger] s.drop_last()[i],
                ) by {
                    assert(s.drop_last()[i] == s[i]);
                }
            }
        } else if s.len() == 1 || is_space(s[s.len() - 2]) {
            assert(is_word(seq![c]));
        } else {
            assert(s.drop_last().last() == s[s.len() - 2]);
            let w = before.last().push(c);
            assert(is_word(before.last()));
            assert forall|i: int| 0 <= i < w.len() implies !is_space(#[trigger] w[i]) by {
                if i < w.len() - 1 {
                    assert(w[i] == before.last()[i]);
                }
            }
        }
    }
}

/// A word that follows white space, or stands at the start, is a word of the
/// text.
pub proof fn lemma_words_append(p: Seq<char>, w: Seq<char>)
    requires
        is_word(w),
        p.len() == 0 || is_space(p.last()),
    ensures
        words(p + w) == words(p).push(w),
    decreases w.len(),
{
    let s = p + w;
    let c = w.last();
    assert(s.last() == c);
    if w.len() == 1 {
        assert(s.drop_last() == p);
        assert(w == seq![c]);
        if s.len() > 1 {
            assert(s[s.len() - 2] == p.last());
        }
    } else {
        let shorter = w.drop_last();
        assert(is_word(shorter)) by {
            assert forall|i: int| 0 <= i < shorter.len() implies !is_space(
                #[trigger] shorter[i],
            ) by {
                assert(shorter[i] == w[i]);
            }
        }
        lemma_words_append(p, shorter);
        assert(s.drop_last() == p + shorter);
        assert(s[s.len() - 2] == w[w.len() - 2]);
        let before = words(p).push(shorter);
        assert(before.drop_last() == words(p));
        assert(before.last().push(c) == w);
    }
}

/// The words of joined words are those words.
pub proof fn lemma_words_of_join(ws: Seq<Seq<char>>)
    requires
        forall|k: int| 0 <= k < ws.len() ==> is_word(#[trigger] ws[k]),
    ensures
        words(join_words(ws)) == ws,
        join_words(ws).len() == 0 <==> ws.len() == 0,
    decreases ws.len(),
{
    if ws.len() == 1 {
        let w = ws[0];
        lemma_words_append(Seq::empty(), w);
        assert(Seq::<char>::empty() + w == w);
        assert(Seq::<Seq<char>>::empty().push(w) == ws);
    } else if ws.len() > 1 {
        let front = ws.drop_last();
        let w = ws.last();
        lemma_words_of_join(front);
        let p = join_words(front) + seq![' '];
        assert(p.drop_last() == join_words(front));
        assert(is_space(p.last()));
        lemma_words_append(p, w);
        assert(front.push(w) == ws);
    }
}

/// Normalizing a text yields the empty text exactly when the text is blank.
pub proof fn lemma_normalized_empty(s: Seq<char>)
    ensures
        normalized(s).len() == 0 <==> is_blank(s),
{
    lemma_words_are_words(s);
    lemma_words_of_join(words(s));
}

/// Normalizing a normalized text changes nothing.
pub proof fn lemma_normalized_twice(s: Seq<char>)
    ensures
        normalized(normalized(s)) == normalized(s),
{
    lemma_words_are_words(s);
    lemma_words_of_join(words(s));
}

/// Collapses every run of white space in `s` to one space and trims both ends.
pub fn normalize_name(s: &str) -> (r: String)
    ensures
        r@ == normalized(s@),
{
    let mut out = String::new();
    let mut in_word = false;
    let mut any = false;
    let chars = s.chars();
    for c in it: chars
        invariant
            it.seq() == s@,
            out@ == normalized(s@.take(it.index())),
            any == (words(s@.take(it.index())).len() > 0),
            in_word == (it.index() > 0 && !is_space(s@[it.index() - 1])),
            in_word ==> any,
    {
        let ghost prefix = s@.take(it.index());
        let ghost next = s@.take(it.index() + 1);
        assert(next.drop_last() == prefix);
        assert(next.last() == c);
        if is_whitespace(c) {
            in_word = false;
        } else {
            if !in_word {
                if any {
                    out.push(' ');
                }
                out.push(c);
                proof {
                    let ws = words(prefix);
                    assert(words(next) == ws.push(seq![c]));
                    assert(words(next).drop_last() == ws);
                }
            } else {
                out.push(c);
                proof {
                    let ws = words(prefix);
                    let ext = ws.drop_last().push(ws.last().push(c));
                    assert(words(next) == ext);
                    assert(ext.drop_last() == ws.drop_last());
                }
            }
            in_word = true;
            any = true;
        }
    }
    assert(s@.take(s@.len() as int) == s@);
    out
}

} // verus!
