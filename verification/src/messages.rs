//! Organising logged messages into positioned fragments for a text panel of
//! the given width and height: newest message first, tokens split at spaces,
//! lines wrapped, fragments that cannot fit a line dropped, and everything
//! below the panel cut off.

use vstd::prelude::*;
use vstd::string::StrSliceExecFns;
use vstd::string::StringExecFns;

use std::collections::VecDeque;

use crate::colour::Colour;
use crate::logger::Message;

verus! {

/// One positioned, coloured run of text, ready to draw.
#[derive(Debug)]
pub struct Fragment {
    pub x: i32,
    pub y: i32,
    pub content: String,
    pub colour: Colour,
}

/// The pieces of a split, joined back together in order.
pub open spec fn spec_concat(words: Seq<Seq<char>>) -> Seq<char>
    decreases words.len(),
{
    if words.len() == 0 {
        Seq::empty()
    } else {
        spec_concat(words.drop_last()) + words.last()
    }
}

/// Splits a token's text after each space: every piece is nonempty and
/// holds no space except as its final character, every piece but the last
/// ends with the space it was split at, and the pieces joined back in
/// order give the text exactly.
pub fn split_words(s: &str) -> (words: Vec<String>)
    ensures
        forall|k: int|
            0 <= k < words@.len() ==> {
                let word = (#[trigger] words@[k])@;
                &&& word.len() > 0
                &&& forall|j: int| 0 <= j < word.len() - 1 ==> word[j] != ' '
            },
        forall|k: int| 0 <= k < words@.len() - 1 ==> (#[trigger] words@[k])@.last() == ' ',
        spec_concat(words@.map_values(|w: String| w@)) == s@,
{
    let n = s.unicode_len();
    let mut words: Vec<String> = Vec::new();
    let mut start: usize = 0;
    let mut i: usize = 0;
    while i < n
        invariant
            n == s@.len(),
            start <= i <= n,
            forall|j: int| start <= j < i ==> s@[j] != ' ',
            spec_concat(words@.map_values(|w: String| w@)) == s@.subrange(0, start as int),
            forall|k: int|
                0 <= k < words@.len() ==> {
                    let word = (#[trigger] words@[k])@;
                    &&& word.len() > 0
                    &&& word.last() == ' '
                    &&& forall|j: int| 0 <= j < word.len() - 1 ==> word[j] != ' '
                },
        decreases n - i,
    {
        if s.get_char(i) == ' ' {
            let ghost before = words@.map_values(|w: String| w@);
            let piece = s.substring_char(start, i + 1);
            words.push(String::from_str(piece));
            proof {
                let after = words@.map_values(|w: String| w@);
                assert(after =~= before.push(piece@));
                assert(after.drop_last() =~= before);
                assert(spec_concat(after) == spec_concat(before) + piece@);
                assert(s@.subrange(0, start as int) + s@.subrange(start as int, i + 1) =~= s@
                    .subrange(0, i + 1));
            }
            start = i + 1;
        }
        i = i + 1;
    }
    if start < n {
        let ghost before = words@.map_values(|w: String| w@);
        let piece = s.substring_char(start, n);
        words.push(String::from_str(piece));
        proof {
            let after = words@.map_values(|w: String| w@);
            assert(after =~= before.push(piece@));
            assert(after.drop_last() =~= before);
            assert(spec_concat(after) == spec_concat(before) + piece@);
            assert(s@.subrange(0, start as int) + s@.subrange(start as int, n as int) =~= s@
                .subrange(0, n as int));
            assert(s@.subrange(0, n as int) =~= s@);
        }
    } else {
        proof {
            assert(s@.subrange(0, start as int) =~= s@);
        }
    }
    words
}

/// Organises the record's messages into drawable fragments for a panel `w`
/// cells wide and `h` lines tall: every fragment lies inside the panel, and
/// none crosses its right edge.
pub fn organise_messages(w: i32, h: i32, messages: &VecDeque<Message>) -> (frags: Vec<Fragment>)
    ensures
        forall|k: int|
            0 <= k < frags@.len() ==> {
                let f = #[trigger] frags@[k];
                &&& 0 <= f.x
                &&& f.x + f.content@.len() <= w
                &&& 0 <= f.y < h
            },
{
    let mut frags: Vec<Fragment> = Vec::new();
    // The cursor, kept wide so that the wrapping bookkeeping can never
    // overflow; fragments are only emitted while it fits the panel.
    let mut cx: i64 = 0;
    let mut cy: i64 = 0;
    let mut done = false;

    // Newest message first.
    let mut m: usize = messages.len();
    while m > 0
        invariant
            m <= messages@.len(),
            0 <= cx <= i32::MAX,
            0 <= cy,
            forall|k: int|
                0 <= k < frags@.len() ==> {
                    let f = #[trigger] frags@[k];
                    &&& 0 <= f.x
                    &&& f.x + f.content@.len() <= w
                    &&& 0 <= f.y < h
                },
        decreases m,
    {
        m = m - 1;
        let message = &messages[m];
        let mut t: usize = 0;
        while t < message.tokens.len() && !done
            invariant
                t <= message.tokens@.len(),
                message == &messages@[m as int],
                m < messages@.len(),
                0 <= cx <= i32::MAX,
                0 <= cy,
                forall|k: int|
                    0 <= k < frags@.len() ==> {
                        let f = #[trigger] frags@[k];
                        &&& 0 <= f.x
                        &&& f.x + f.content@.len() <= w
                        &&& 0 <= f.y < h
                    },
            decreases message.tokens@.len() - t,
        {
            let token = &message.tokens[t];
            let words = split_words(token.content.as_str());
            let mut g: usize = 0;
            while g < words.len() && !done
                invariant
                    g <= words@.len(),
                    0 <= cx <= i32::MAX,
                    0 <= cy,
                    forall|k: int|
                        0 <= k < frags@.len() ==> {
                            let f = #[trigger] frags@[k];
                            &&& 0 <= f.x
                            &&& f.x + f.content@.len() <= w
                            &&& 0 <= f.y < h
                        },
                decreases words@.len() - g,
            {
                let len = words[g].as_str().unicode_len();
                let fits_line = len <= 0x7fff_ffff && (len as i64) <= (w as i64);
                if cx + (if len <= 0x7fff_ffff {
                    len as i64
                } else {
                    0x7fff_ffffi64 + 1
                }) > (w as i64) {
                    // Wrap to the start of the next line; a fragment wider
                    // than the whole panel is dropped with the rest of its
                    // token.
                    cx = 0;
                    if cy < 0x7fff_ffff_ffff_fffei64 {
                        cy = cy + 1;
                    }
                    if !fits_line {
                        break ;
                    }
                }
                if cy >= (h as i64) {
                    // Out of room vertically: nothing below is drawn.
                    done = true;
                    break ;
                }
                frags.push(
                    Fragment {
                        x: cx as i32,
                        y: cy as i32,
                        content: words[g].clone(),
                        colour: token.colour,
                    },
                );
                cx = cx + (len as i64);
                g = g + 1;
            }
            t = t + 1;
        }
        if done {
            break ;
        }
        // The next message starts on a fresh line.
        cx = 0;
        if cy < 0x7fff_ffff_ffff_fffei64 {
            cy = cy + 1;
        }
    }
    frags
}

} // verus!
