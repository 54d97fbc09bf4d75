//! The `Path` of a Windows user: a list of directories with semicolons between them.

use vstd::prelude::*;
use crate::text::chars_of;
use crate::text::copy_of;
use crate::text::eq_ignore_case;
use crate::text::join;
use crate::text::join_strings;
use crate::text::law_joined_texts_are_the_pieces;
use crate::text::law_trimming_cuts_off_the_end;
use crate::text::lemma_split_append_plain;
use crate::text::lemma_split_pieces;
use crate::text::same_ignore_case;
use crate::text::same_text;
use crate::text::split;
use crate::text::split_chars;
use crate::text::string_of;
use crate::text::texts;
use crate::text::trim_end;

verus! {

/// `s` without the backslashes that it ends with.
pub open spec fn without_trailing_backslashes(s: Seq<char>) -> Seq<char> {
    trim_end(s, |c: char| c == '\\')
}

/// `s` without the backslashes that it ends with.
pub fn trim_backslashes(s: &str) -> (r: String)
    ensures
        r@ == without_trailing_backslashes(s@),
{
    let mut chars = chars_of(s);
    while chars.len() > 0 && chars[chars.len() - 1] == '\\'
        invariant
            without_trailing_backslashes(s@) == without_trailing_backslashes(chars@),
        decreases chars@.len(),
    {
        let ghost before = chars@;
        let _ = chars.pop();
        assert(chars@ =~= before.drop_last());
    }
    string_of(&chars)
}

/// The directory is another one than `entry`, which has no trailing backslash.
pub open spec fn other_than(segment: Seq<char>, entry: Seq<char>) -> bool {
    segment.len() > 0 && !eq_ignore_case(without_trailing_backslashes(segment), entry)
}

/// The directories of `path_value` other than `entry`, in order.
pub open spec fn others(path_value: Seq<char>, entry: Seq<char>) -> Seq<Seq<char>> {
    split(path_value, ';').filter(
        |segment: Seq<char>| other_than(segment, without_trailing_backslashes(entry)),
    )
}

/// `path_value` with `entry` in front and nowhere else.
pub open spec fn prepended(path_value: Seq<char>, entry: Seq<char>) -> Seq<char> {
    join(seq![entry] + others(path_value, entry), ";"@)
}

/// `path_value` with `entry` in front and nowhere else. Case and trailing backslashes
/// make no difference, and empty entries are dropped.
pub fn prepend_path_entry(path_value: &str, entry: &str) -> (r: String)
    ensures
        r@ == prepended(path_value@, entry@),
{
    let needle = trim_backslashes(entry);
    let pieces = split_chars(&chars_of(path_value), ';');
    let ghost all = split(path_value@, ';');
    let ghost keep = |segment: Seq<char>|
        other_than(segment, without_trailing_backslashes(entry@));
    let mut segments: Vec<String> = Vec::new();
    segments.push(copy_of(entry));
    assert(pieces@.map_values(|p: Vec<char>| p@) == all);
    assert(all.take(0) =~= Seq::<Seq<char>>::empty());
    proof {
        reveal(Seq::filter);
        assert(texts(segments@) =~= seq![entry@] + all.take(0).filter(keep));
    }
    let mut i: usize = 0;
    while i < pieces.len()
        invariant
            i <= pieces@.len(),
            pieces@.map_values(|p: Vec<char>| p@) == all,
            keep == (|segment: Seq<char>|
                other_than(segment, without_trailing_backslashes(entry@))),
            needle@ == without_trailing_backslashes(entry@),
            texts(segments@) == seq![entry@] + all.take(i as int).filter(keep),
        decreases pieces@.len() - i,
    {
        let ghost before = texts(segments@);
        let segment = string_of(&pieces[i]);
        proof {
            reveal(Seq::filter);
            assert(segment@ == all[i as int]);
            assert(all.take(i + 1).drop_last() =~= all.take(i as int));
            assert(all.take(i + 1).last() == segment@);
        }
        let differs = !same_ignore_case(
            trim_backslashes(segment.as_str()).as_str(),
            needle.as_str(),
        );
        if pieces[i].len() > 0 && differs {
            segments.push(segment);
            assert(texts(segments@) =~= before.push(all[i as int]));
            assert(texts(segments@) =~= seq![entry@] + all.take(i + 1).filter(keep));
        }
        i += 1;
    }
    assert(all.take(i as int) =~= all);
    join_strings(&segments, ";")
}

/// What `path_value` becomes when the directory `visible_bin_dir` is put in front;
/// nothing where it stays as it is.
pub fn update_user_path(path_value: &str, visible_bin_dir: &str) -> (r: Option<String>)
    ensures
        ({
            let updated = prepended(path_value@, without_trailing_backslashes(visible_bin_dir@));
            match r {
                Some(path) => path@ == updated && updated != path_value@,
                None => updated == path_value@,
            }
        }),
{
    let bin_dir = trim_backslashes(visible_bin_dir);
    let updated = prepend_path_entry(path_value, bin_dir.as_str());
    if same_text(updated.as_str(), path_value) {
        None
    } else {
        Some(updated)
    }
}

// ---------------------------------------------------------------------------
// Laws
// ---------------------------------------------------------------------------

proof fn lemma_filter_keeps(s: Seq<Seq<char>>, keep: spec_fn(Seq<char>) -> bool)
    ensures
        forall|i: int|
            0 <= i < s.filter(keep).len() ==> keep(#[trigger] s.filter(keep)[i]) && s.contains(
                s.filter(keep)[i],
            ),
        (forall|i: int| 0 <= i < s.len() ==> keep(#[trigger] s[i])) ==> s.filter(keep) == s,
    decreases s.len(),
{
    reveal(Seq::filter);
    if s.len() > 0 {
        let front = s.drop_last();
        lemma_filter_keeps(front, keep);
        assert forall|i: int| 0 <= i < s.filter(keep).len() implies keep(
            #[trigger] s.filter(keep)[i],
        ) && s.contains(s.filter(keep)[i]) by {
            if i < front.filter(keep).len() {
                assert(s.filter(keep)[i] == front.filter(keep)[i]);
                let k = choose|k: int| 0 <= k < front.len() && front[k] == front.filter(keep)[i];
                assert(s[k] == s.filter(keep)[i]);
            } else {
                assert(s.filter(keep)[i] == s.last());
                assert(s[s.len() - 1] == s.last());
            }
        }
        if forall|i: int| 0 <= i < s.len() ==> keep(#[trigger] s[i]) {
            assert forall|i: int| 0 <= i < front.len() implies keep(#[trigger] front[i]) by {
                assert(front[i] == s[i]);
            }
            assert(keep(s[s.len() - 1]));
            assert(s.filter(keep) =~= s);
        }
    } else {
        assert(s.filter(keep) =~= s);
    }
}

/// Splitting undoes joining, where no part holds the separator.
proof fn lemma_split_join(parts: Seq<Seq<char>>, sep: char)
    requires
        parts.len() > 0,
        forall|i: int| 0 <= i < parts.len() ==> !(#[trigger] parts[i]).contains(sep),
    ensures
        split(join(parts, seq![sep]), sep) == parts,
{
    law_joined_texts_are_the_pieces(parts, sep);
}

/// The new path is made of the entry and, behind it, the other directories in their
/// order: splitting it gives just these.
pub proof fn law_path_is_the_entry_and_the_others(path_value: Seq<char>, entry: Seq<char>)
    requires
        !entry.contains(';'),
    ensures
        split(prepended(path_value, entry), ';') == seq![entry] + others(path_value, entry),
        forall|i: int|
            0 <= i < others(path_value, entry).len() ==> other_than(
                #[trigger] others(path_value, entry)[i],
                without_trailing_backslashes(entry),
            ),
{
    let keep = |segment: Seq<char>| other_than(segment, without_trailing_backslashes(entry));
    let pieces = split(path_value, ';');
    let kept = others(path_value, entry);
    let parts = seq![entry] + kept;
    lemma_split_pieces(path_value, ';');
    lemma_filter_keeps(pieces, keep);
    assert forall|i: int| 0 <= i < parts.len() implies !(#[trigger] parts[i]).contains(';') by {
        if i > 0 {
            assert(parts[i] == kept[i - 1]);
            assert(pieces.contains(kept[i - 1]));
        }
    }
    reveal_strlit(";");
    assert(";"@ =~= seq![';']);
    lemma_split_join(parts, ';');
    assert forall|i: int| 0 <= i < kept.len() implies other_than(
        #[trigger] kept[i],
        without_trailing_backslashes(entry),
    ) by {
        assert(keep(kept[i]));
    }
}

/// Putting a directory in front twice is the same as putting it there once.
pub proof fn law_prepending_twice_changes_nothing(path_value: Seq<char>, entry: Seq<char>)
    requires
        !entry.contains(';'),
    ensures
        prepended(prepended(path_value, entry), entry) == prepended(path_value, entry),
{
    let keep = |segment: Seq<char>| other_than(segment, without_trailing_backslashes(entry));
    let kept = others(path_value, entry);
    law_path_is_the_entry_and_the_others(path_value, entry);
    let parts = seq![entry] + kept;
    assert(!keep(entry));
    Seq::filter_distributes_over_add(seq![entry], kept, keep);
    assert(seq![entry].filter(keep) =~= Seq::<Seq<char>>::empty()) by {
        reveal(Seq::filter);
        assert(seq![entry].drop_last() =~= Seq::<Seq<char>>::empty());
        assert(seq![entry].last() == entry);
        assert(Seq::<Seq<char>>::empty().filter(keep) =~= Seq::<Seq<char>>::empty());
    }
    assert forall|i: int| 0 <= i < kept.len() implies keep(#[trigger] kept[i]) by {}
    lemma_filter_keeps(kept, keep);
    assert(parts.filter(keep) =~= kept);
}

/// The directory comes first, and no directory behind it is the same up to case and
/// trailing backslashes.
pub proof fn law_entry_comes_first_and_once(path_value: Seq<char>, entry: Seq<char>)
    requires
        !entry.contains(';'),
    ensures
        ({
            let segments = split(prepended(path_value, entry), ';');
            &&& segments.len() >= 1
            &&& segments[0] == entry
            &&& forall|i: int|
                1 <= i < segments.len() ==> other_than(
                    #[trigger] segments[i],
                    without_trailing_backslashes(entry),
                )
        }),
{
    law_path_is_the_entry_and_the_others(path_value, entry);
    let kept = others(path_value, entry);
    let segments = split(prepended(path_value, entry), ';');
    assert forall|i: int| 1 <= i < segments.len() implies other_than(
        #[trigger] segments[i],
        without_trailing_backslashes(entry),
    ) by {
        assert(segments[i] == kept[i - 1]);
    }
}

// ---------------------------------------------------------------------------
// Wide strings
// ---------------------------------------------------------------------------

/// The code units of one character in UTF-16.
pub open spec fn utf16_units(c: char) -> Seq<u16> {
    let v = c as u32 as int;
    if v < 0x10000 {
        seq![v as u16]
    } else {
        seq![
            (0xd800 + (v - 0x10000) / 0x400) as u16,
            (0xdc00 + (v - 0x10000) % 0x400) as u16,
        ]
    }
}

/// The code units of `s` in UTF-16.
pub open spec fn utf16(s: Seq<char>) -> Seq<u16>
    decreases s.len(),
{
    if s.len() == 0 {
        Seq::empty()
    } else {
        utf16(s.drop_last()) + utf16_units(s.last())
    }
}

/// The code units of `value` in UTF-16, and a zero behind them.
pub fn wide_null(value: &str) -> (r: Vec<u16>)
    ensures
        r@ == utf16(value@).push(0),
{
    let chars = chars_of(value);
    let mut out: Vec<u16> = Vec::new();
    let mut i: usize = 0;
    assert(chars@.take(0) =~= Seq::<char>::empty());
    while i < chars.len()
        invariant
            i <= chars@.len(),
            out@ == utf16(chars@.take(i as int)),
        decreases chars@.len() - i,
    {
        let ghost before = out@;
        assert(chars@.take(i + 1).drop_last() =~= chars@.take(i as int));
        assert(chars@.take(i + 1).last() == chars@[i as int]);
        let v: u32 = chars[i] as u32;
        if v < 0x10000 {
            out.push(v as u16);
        } else {
            let rest: u32 = v - 0x10000;
            out.push((0xd800 + rest / 0x400) as u16);
            out.push((0xdc00 + rest % 0x400) as u16);
        }
        assert(out@ =~= before + utf16_units(chars@[i as int]));
        i += 1;
    }
    assert(chars@.take(i as int) =~= chars@);
    out.push(0);
    out
}

proof fn lemma_units_not_zero(c: char)
    requires
        c != '\0',
    ensures
        forall|i: int| 0 <= i < utf16_units(c).len() ==> #[trigger] utf16_units(c)[i] != 0,
{
    assert(0 < c as u32 <= 0x10ffff);
}

/// A wide string ends at its zero: a text without the character zero has no zero among
/// its code units.
pub proof fn law_only_the_end_is_zero(s: Seq<char>)
    requires
        forall|i: int| 0 <= i < s.len() ==> #[trigger] s[i] != '\0',
    ensures
        forall|i: int| 0 <= i < utf16(s).len() ==> #[trigger] utf16(s)[i] != 0,
    decreases s.len(),
{
    if s.len() > 0 {
        let front = s.drop_last();
        assert forall|i: int| 0 <= i < front.len() implies #[trigger] front[i] != '\0' by {
            assert(front[i] == s[i]);
        }
        law_only_the_end_is_zero(front);
        assert(s[s.len() - 1] != '\0');
        let units = utf16_units(s.last());
        lemma_units_not_zero(s.last());
        assert forall|i: int| 0 <= i < utf16(s).len() implies #[trigger] utf16(s)[i] != 0 by {
            if i < utf16(front).len() {
                assert(utf16(s)[i] == utf16(front)[i]);
            } else {
                assert(utf16(s)[i] == units[i - utf16(front).len()]);
            }
        }
    }
}

// ---------------------------------------------------------------------------
// What stays
// ---------------------------------------------------------------------------

/// Every directory of the path that is another one than the entry stays, as it is written
/// and in its place; empty ones and the entry itself, up to case and trailing backslashes,
/// go. Said of the last directory, which any directory of a path once was.
pub proof fn law_other_directories_stay(path_value: Seq<char>, last: Seq<char>, entry: Seq<char>)
    requires
        !last.contains(';'),
    ensures
        ({
            let stays = last.len() > 0 && !eq_ignore_case(
                without_trailing_backslashes(last),
                without_trailing_backslashes(entry),
            );
            &&& others(path_value.push(';') + last, entry) == if stays {
                others(path_value, entry).push(last)
            } else {
                others(path_value, entry)
            }
            &&& others(last, entry) == if stays {
                seq![last]
            } else {
                Seq::empty()
            }
        }),
{
    let keep = |segment: Seq<char>| other_than(segment, without_trailing_backslashes(entry));
    let none = Seq::<char>::empty();
    let pieces = split(path_value, ';');
    lemma_split_append_plain(path_value.push(';'), last, ';');
    assert(path_value.push(';').drop_last() =~= path_value);
    assert(split(path_value.push(';'), ';') == pieces.push(none));
    assert(pieces.push(none).drop_last() =~= pieces);
    assert(none + last =~= last);
    assert(split(path_value.push(';') + last, ';') == pieces.push(last));
    assert(pieces.push(last).drop_last() =~= pieces);
    reveal(Seq::filter);
    lemma_split_append_plain(none, last, ';');
    assert(split(none, ';') =~= seq![none]);
    assert(split(last, ';') =~= seq![last]);
    assert(seq![last].drop_last() =~= Seq::<Seq<char>>::empty());
    assert(Seq::<Seq<char>>::empty().filter(keep) =~= Seq::<Seq<char>>::empty());
    assert(others(last, entry) =~= if keep(last) {
        seq![last]
    } else {
        Seq::empty()
    });
}

/// Only backslashes at the end are dropped, and all of them.
pub proof fn law_only_trailing_backslashes_go(s: Seq<char>)
    ensures
        without_trailing_backslashes(s).is_prefix_of(s),
        forall|i: int|
            without_trailing_backslashes(s).len() <= i < s.len() ==> #[trigger] s[i] == '\\',
        without_trailing_backslashes(s).len() > 0 ==> without_trailing_backslashes(s).last()
            != '\\',
{
    law_trimming_cuts_off_the_end(s, |c: char| c == '\\');
}

/// A wide string can be read back: a character of the basic plane is one code unit of its
/// value, and any other is a high and a low surrogate that add up to it; the code units of
/// a text are those of its characters one after the other.
pub proof fn law_wide_text_is_read_back(s: Seq<char>, c: char)
    ensures
        utf16(s.push(c)) == utf16(s) + utf16_units(c),
        utf16(Seq::<char>::empty()) == Seq::<u16>::empty(),
        (c as int) < 0x10000 ==> utf16_units(c).len() == 1 && utf16_units(c)[0] as int == c as int,
        (c as int) >= 0x10000 ==> {
            let units = utf16_units(c);
            &&& units.len() == 2
            &&& 0xd800 <= units[0] < 0xdc00
            &&& 0xdc00 <= units[1] < 0xe000
            &&& 0x10000 + (units[0] - 0xd800) * 0x400 + (units[1] - 0xdc00) == c as int
        },
{
    assert(s.push(c).drop_last() =~= s);
    assert(c as u32 <= 0x10ffff);
}

} // verus!
