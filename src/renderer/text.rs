//! Splitting text into the units that line wrapping works on.
use vstd::prelude::*;
use vstd::string::StrSliceExecFns;

verus! {

/// Whether `c` has the Unicode `White_Space` property, as `char::is_whitespace` decides.
pub uninterp spec fn white_space(c: char) -> bool;

/// Relies on `char::is_whitespace`: the answer depends on the character alone.
#[verifier::external_body]
fn is_space(c: char) -> (r: bool)
    ensures
        r == white_space(c),
{
    c.is_whitespace()
}

/// Relies on `String::push`: appends one character.
#[verifier::external_body]
fn push_char(s: &mut String, c: char)
    ensures
        final(s)@ == old(s)@.push(c),
{
    s.push(c)
}

/// The state after the character at `i`: a whitespace character ends the
/// current word when the character after it is not whitespace (or there is
/// none), and is itself emitted as a word of its own; any other character
/// extends the current word.
pub open spec fn step_words(words: Seq<Seq<char>>, cur: Seq<char>, cs: Seq<char>, i: int) -> (
    Seq<Seq<char>>,
    Seq<char>,
) {
    let c = cs[i];
    if white_space(c) {
        if cur.len() > 0 && (i + 1 >= cs.len() || !white_space(cs[i + 1])) {
            (words.push(cur).push(seq![c]), Seq::empty())
        } else {
            (words.push(seq![c]), cur)
        }
    } else {
        (words, cur.push(c))
    }
}

/// The finished words and the word in progress after the first `i` characters.
pub open spec fn split_state(cs: Seq<char>, i: int) -> (Seq<Seq<char>>, Seq<char>)
    decreases i,
{
    if i <= 0 {
        (Seq::empty(), Seq::empty())
    } else {
        let (w, c) = split_state(cs, i - 1);
        step_words(w, c, cs, i - 1)
    }
}

/// The words of `cs`, whitespace characters included as one-character words.
pub open spec fn split_words(cs: Seq<char>) -> Seq<Seq<char>> {
    let (w, c) = split_state(cs, cs.len() as int);
    if c.len() > 0 {
        w.push(c)
    } else {
        w
    }
}

pub open spec fn views(ws: Seq<String>) -> Seq<Seq<char>> {
    ws.map_values(|s: String| s@)
}

/// Splits `text` into words and single whitespace characters, as `split_words` states.
pub fn split_to_words(text: &str) -> (r: Vec<String>)
    ensures
        views(r@) == split_words(text@),
{
    let n = text.unicode_len();
    let mut words: Vec<String> = Vec::new();
    let mut current = String::new();
    let mut cur_len: usize = 0;
    let mut i: usize = 0;
    while i < n
        invariant
            n == text@.len(),
            i <= n,
            (views(words@), current@) == split_state(text@, i as int),
            cur_len == current@.len(),
        decreases n - i,
    {
        let ghost old_words = words@;
        let ghost old_cur = current@;
        let c = text.get_char(i);
        if is_space(c) {
            let next_space = if i + 1 < n {
                is_space(text.get_char(i + 1))
            } else {
                false
            };
            if cur_len > 0 && !next_space {
                words.push(current);
                assert(views(words@) =~= views(old_words).push(old_cur));
                current = String::new();
                cur_len = 0;
            }
            let mut w = String::new();
            push_char(&mut w, c);
            let ghost mid = words@;
            words.push(w);
            assert(views(words@) =~= views(mid).push(seq![c]));
        } else {
            push_char(&mut current, c);
            proof {
                assert(cur_len < n) by {
                    assert(current@.len() <= i + 1) by {
                        lemma_cur_len(text@, i as int + 1);
                    }
                }
            }
            cur_len = cur_len + 1;
        }
        i += 1;
    }
    if cur_len > 0 {
        let ghost w0 = words@;
        let ghost c0 = current@;
        words.push(current);
        assert(views(words@) =~= views(w0).push(c0));
    }
    words
}

proof fn lemma_cur_len(cs: Seq<char>, i: int)
    requires
        0 <= i <= cs.len(),
    ensures
        split_state(cs, i).1.len() <= i,
    decreases i,
{
    if i > 0 {
        lemma_cur_len(cs, i - 1);
    }
}

} // verus!
