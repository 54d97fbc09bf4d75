//! What is written to the terminal besides its contents.

use vstd::prelude::*;
use vstd::utf8::encode_utf8;
use crate::protocol::duplicate_bytes;
use crate::text::chars_of;
use crate::text::string_of;

verus! {

/// A character that would end a title, or begin another sequence.
pub open spec fn ends_title(c: char) -> bool {
    c == '\u{1b}' || c == '\u{7}' || c == '\u{9c}'
}

/// The title without the characters that would end it; `tanuki` where there is none.
pub open spec fn safe_title(title: Option<Seq<char>>) -> Seq<char> {
    match title {
        Some(title) => title,
        None => "tanuki"@,
    }.filter(|c: char| !ends_title(c))
}

/// What sets the title of a terminal.
pub open spec fn title_sequence(title: Seq<char>) -> Seq<u8> {
    seq![0x1bu8, 0x5du8, 0x30u8, 0x3bu8] + encode_utf8(title) + seq![0x07u8]
}

/// Writes what sets the title of a terminal.
pub fn write_window_title(writer: &mut Vec<u8>, title: Option<&str>)
    ensures
        final(writer)@ == old(writer)@ + title_sequence(safe_title(crate::text::opt_str(title))),
{
    let ghost before = writer@;
    let text = match title {
        Some(title) => title,
        None => "tanuki",
    };
    let ghost keep = |c: char| !ends_title(c);
    let chars = chars_of(text);
    let mut kept: Vec<char> = Vec::new();
    let mut i: usize = 0;
    assert(chars@.take(0) =~= Seq::<char>::empty());
    proof {
        reveal(Seq::filter);
    }
    while i < chars.len()
        invariant
            i <= chars@.len(),
            keep == (|c: char| !ends_title(c)),
            kept@ == chars@.take(i as int).filter(keep),
        decreases chars@.len() - i,
    {
        let c = chars[i];
        proof {
            reveal(Seq::filter);
            assert(chars@.take(i + 1).drop_last() =~= chars@.take(i as int));
            assert(chars@.take(i + 1).last() == c);
        }
        if !(c == '\u{1b}' || c == '\u{7}' || c == '\u{9c}') {
            kept.push(c);
        }
        i += 1;
    }
    assert(chars@.take(i as int) =~= chars@);
    let safe = string_of(&kept);
    let mut bytes = duplicate_bytes(safe.as_str().as_bytes());
    writer.push(0x1b);
    writer.push(0x5d);
    writer.push(0x30);
    writer.push(0x3b);
    writer.append(&mut bytes);
    writer.push(0x07);
    assert(writer@ =~= before + title_sequence(safe@));
}

/// Nothing in a title can end it early: what is written between its start and its end
/// holds no character that ends a title.
pub proof fn law_title_cannot_end_early(title: Option<Seq<char>>)
    ensures
        forall|i: int|
            0 <= i < safe_title(title).len() ==> !ends_title(#[trigger] safe_title(title)[i]),
{
    let text = match title {
        Some(title) => title,
        None => "tanuki"@,
    };
    let keep = |c: char| !ends_title(c);
    assert forall|i: int| 0 <= i < safe_title(title).len() implies !ends_title(
        #[trigger] safe_title(title)[i],
    ) by {
        text.lemma_filter_pred(keep, i);
    }
}

/// A title keeps every character but escape, bell and the end of a string, in order; one
/// that holds none of these is shown as it is.
pub proof fn law_title_keeps_everything_else(title: Seq<char>, c: char)
    ensures
        safe_title(Some(Seq::<char>::empty())) == Seq::<char>::empty(),
        c == '\u{1b}' || c == '\u{7}' || c == '\u{9c}' ==> safe_title(Some(title.push(c)))
            == safe_title(Some(title)),
        c != '\u{1b}' && c != '\u{7}' && c != '\u{9c}' ==> safe_title(Some(title.push(c)))
            == safe_title(Some(title)).push(c),
{
    let keep = |d: char| !ends_title(d);
    reveal(Seq::filter);
    assert(title.push(c).drop_last() =~= title);
    assert(Seq::<char>::empty().filter(keep) =~= Seq::<char>::empty());
}

/// Without a title the program's name is the title.
pub proof fn law_default_title_is_the_program()
    ensures
        safe_title(None) == seq!['t', 'a', 'n', 'u', 'k', 'i'],
{
    reveal_strlit("tanuki");
    assert("tanuki"@ =~= seq!['t', 'a', 'n', 'u', 'k', 'i']);
    let keep = |d: char| !ends_title(d);
    reveal_with_fuel(Seq::filter, 7);
    let t = "tanuki"@;
    assert(t.drop_last() =~= seq!['t', 'a', 'n', 'u', 'k']);
    assert(t.drop_last().drop_last() =~= seq!['t', 'a', 'n', 'u']);
    assert(t.drop_last().drop_last().drop_last() =~= seq!['t', 'a', 'n']);
    assert(t.filter(keep) =~= t);
}

/// What sets a title begins with `ESC ] 0 ;`, ends with a bell, and carries the title in
/// between, encoded.
pub proof fn law_title_is_framed(title: Seq<char>)
    ensures
        ({
            let written = title_sequence(title);
            let n = encode_utf8(title).len() as int;
            &&& written.len() == n + 5
            &&& written.take(4) == seq![0x1bu8, 0x5du8, 0x30u8, 0x3bu8]
            &&& written.subrange(4, 4 + n) == encode_utf8(title)
            &&& written.last() == 0x07u8
        }),
{
    let written = title_sequence(title);
    let n = encode_utf8(title).len() as int;
    assert(written.take(4) =~= seq![0x1bu8, 0x5du8, 0x30u8, 0x3bu8]);
    assert(written.subrange(4, 4 + n) =~= encode_utf8(title));
}

} // verus!
