use vstd::prelude::*;

use crate::numerals::dec_of;
use crate::numerals::render_usize;

verus! {

/// Whether the text holds a field separator at all. A frame without one is
/// malformed and is discarded silently.
pub open spec fn has_separator(s: Seq<char>) -> bool {
    exists|i: int| 0 <= i < s.len() && s[i] == '\n'
}

/// `i` is the position of the first separator in `s`.
pub open spec fn is_first_sep(s: Seq<char>, i: int) -> bool {
    &&& 0 <= i < s.len()
    &&& s[i] == '\n'
    &&& forall|j: int| 0 <= j < i ==> s[j] != '\n'
}

/// The position of the first separator of a text that has one.
pub open spec fn first_sep(s: Seq<char>) -> int {
    choose|i: int| is_first_sep(s, i)
}

/// The room a well-formed inbound frame addresses: everything before the
/// first separator.
pub open spec fn room_of(s: Seq<char>) -> Seq<char> {
    s.subrange(0, first_sep(s))
}

/// The message text of a well-formed inbound frame: everything after the
/// first separator.
pub open spec fn text_of(s: Seq<char>) -> Seq<char> {
    s.subrange(first_sep(s) + 1, s.len() as int)
}

/// A separator anywhere means a first separator somewhere.
proof fn lemma_first_sep_from_witness(s: Seq<char>, j: int)
    requires
        0 <= j < s.len(),
        s[j] == '\n',
    ensures
        is_first_sep(s, first_sep(s)),
    decreases j,
{
    if forall|k: int| 0 <= k < j ==> s[k] != '\n' {
        assert(is_first_sep(s, j));
    } else {
        let k = choose|k: int| 0 <= k < j && s[k] == '\n';
        lemma_first_sep_from_witness(s, k);
    }
}

/// A text with a separator has a well-defined first one.
pub proof fn lemma_has_separator_first(s: Seq<char>)
    requires
        has_separator(s),
    ensures
        is_first_sep(s, first_sep(s)),
{
    let j = choose|j: int| 0 <= j < s.len() && s[j] == '\n';
    lemma_first_sep_from_witness(s, j);
}

/// The first separator is unique.
proof fn lemma_first_sep_unique(s: Seq<char>, i: int)
    requires
        is_first_sep(s, i),
    ensures
        first_sep(s) == i,
{
    assert(has_separator(s));
    lemma_has_separator_first(s);
    let f = first_sep(s);
    if f < i {
        assert(s[f] == '\n');
    } else if f > i {
        assert(s[i] == '\n');
    }
}

/// The position of the first separator, scanned left to right.
fn find_newline(s: &str) -> (r: Option<usize>)
    ensures
        r matches Some(i) ==> is_first_sep(s@, i as int) && first_sep(s@) == i,
        (r is Some) <==> has_separator(s@),
{
    let len = s.unicode_len();
    let mut i: usize = 0;
    while i < len
        invariant
            len == s@.len(),
            0 <= i <= len,
            forall|j: int| 0 <= j < i ==> s@[j] != '\n',
        decreases len - i,
    {
        let c = s.get_char(i);
        if c == '\n' {
            proof {
                assert(is_first_sep(s@, i as int));
                lemma_first_sep_unique(s@, i as int);
            }
            return Some(i);
        }
        i = i + 1;
    }
    None
}

/// Splits an inbound frame `"room-name\ntext"` at its first separator into
/// the addressed room's name and the message text. A frame with no
/// separator yields nothing.
pub fn split_frame(frame: &str) -> (r: Option<(String, String)>)
    ensures
        (r is Some) <==> has_separator(frame@),
        r matches Some(p) ==> p.0@ == room_of(frame@) && p.1@ == text_of(frame@),
        r matches Some(p) ==> frame@ == p.0@ + seq!['\n'] + p.1@,
{
    match find_newline(frame) {
        None => None,
        Some(i) => {
            let len = frame.unicode_len();
            let room = frame.substring_char(0, i).to_owned();
            let text = frame.substring_char(i + 1, len).to_owned();
            proof {
                assert(frame@ =~= room@ + seq!['\n'] + text@);
            }
            Some((room, text))
        },
    }
}

/// The rebroadcast frame for an accepted inbound frame: the author's id in
/// decimal, a separator, and the inbound frame as it was received.
pub open spec fn outbound_frame(author: nat, frame: Seq<char>) -> Seq<char> {
    dec_of(author) + seq!['\n'] + frame
}

pub fn encode_outbound(author: usize, frame: &str) -> (out: String)
    ensures
        out@ == outbound_frame(author as nat, frame@),
{
    let mut s = render_usize(author);
    proof {
        reveal_strlit("\n");
    }
    s.append("\n");
    s.append(frame);
    proof {
        assert(s@ =~= dec_of(author as nat) + seq!['\n'] + frame@);
    }
    s
}

} // verus!
