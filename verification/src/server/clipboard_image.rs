//! Staging what clients upload: the names that clipboard images and files get on disk,
//! and when they are removed again.

use vstd::prelude::*;
use crate::text::byte_len;
use crate::text::byte_size;
use crate::text::char_width;
use crate::text::chars_of;
use crate::text::control;
use crate::text::copy_of;
use crate::text::decimal;
use crate::text::decimal_string;
use crate::text::eq_ignore_case;
use crate::text::is_control;
use crate::text::is_whitespace;
use crate::text::law_case_is_all_that_is_ignored;
use crate::text::lemma_byte_len_add;
use crate::text::lemma_first_field;
use crate::text::lemma_radix_digits;
use crate::text::lemma_radix_injective;
use crate::text::lemma_width;
use crate::text::same_ignore_case;
use crate::text::slice_chars;
use crate::text::string_of;
use crate::text::whitespace;

verus! {

/// How old a staged file may become, in nanoseconds.
pub const STAGED_CLIPBOARD_IMAGE_MAX_AGE: i128 = 86_400_000_000_000;

/// The longest name that a staged file keeps, in bytes.
pub const MAX_STAGED_FILE_NAME_BYTES: usize = 128;

/// How many names are tried before staging is given up.
pub const STAGING_ATTEMPTS: u32 = 100;

// ---------------------------------------------------------------------------
// File names
// ---------------------------------------------------------------------------

/// The characters that separate the components of a path, here or elsewhere.
pub open spec fn separator(c: char) -> bool {
    c == '/' || c == '\\'
}

/// What stands behind the last separator.
pub open spec fn last_component(s: Seq<char>) -> Seq<char>
    decreases s.len(),
{
    if s.len() == 0 || separator(s.last()) {
        Seq::empty()
    } else {
        last_component(s.drop_last()).push(s.last())
    }
}

/// A character that file systems reserve.
pub open spec fn reserved(c: char) -> bool {
    c == '<' || c == '>' || c == ':' || c == '"' || c == '|' || c == '?' || c == '*'
}

fn is_reserved(c: char) -> (r: bool)
    ensures
        r == reserved(c),
{
    c == '<' || c == '>' || c == ':' || c == '"' || c == '|' || c == '?' || c == '*'
}

/// A character that does not go into the name of a staged file.
pub open spec fn unwelcome(c: char) -> bool {
    control(c) || whitespace(c) || reserved(c)
}

fn is_unwelcome(c: char) -> (r: bool)
    ensures
        r == unwelcome(c),
{
    is_control(c) || is_whitespace(c) || is_reserved(c)
}

/// `s` ends in three reserved characters.
pub open spec fn ends_reserved_thrice(s: Seq<char>) -> bool {
    s.len() >= 3 && reserved(s[s.len() - 1]) && reserved(s[s.len() - 2]) && reserved(
        s[s.len() - 3],
    )
}

/// `s` with an underscore for every unwelcome character, but no more than two for a run
/// of reserved ones.
pub open spec fn cleaned(s: Seq<char>) -> Seq<char>
    decreases s.len(),
{
    if s.len() == 0 {
        Seq::empty()
    } else if !unwelcome(s.last()) {
        cleaned(s.drop_last()).push(s.last())
    } else if ends_reserved_thrice(s) {
        cleaned(s.drop_last())
    } else {
        cleaned(s.drop_last()).push('_')
    }
}

/// `s` without the dots that it begins with.
pub open spec fn without_leading_dots(s: Seq<char>) -> Seq<char>
    decreases s.len(),
{
    if s.len() > 0 && s[0] == '.' {
        without_leading_dots(s.skip(1))
    } else {
        s
    }
}

/// The longest prefix of `s` that takes no more than `limit` bytes.
pub open spec fn longest_prefix(s: Seq<char>, limit: nat) -> Seq<char>
    decreases s.len(),
{
    if s.len() == 0 || byte_len(s) <= limit {
        s
    } else {
        longest_prefix(s.drop_last(), limit)
    }
}

/// The last dot of `s` and what follows it; empty where there is no dot.
pub open spec fn from_last_dot(s: Seq<char>) -> Seq<char>
    decreases s.len(),
{
    if s.len() == 0 {
        Seq::empty()
    } else if s.last() == '.' {
        seq!['.']
    } else if from_last_dot(s.drop_last()).len() == 0 {
        Seq::empty()
    } else {
        from_last_dot(s.drop_last()).push(s.last())
    }
}

/// The extension of a name, with its dot. What takes more than sixteen bytes is no
/// extension.
pub open spec fn extension_of(name: Seq<char>) -> Seq<char> {
    if byte_len(from_last_dot(name)) <= 16 {
        from_last_dot(name)
    } else {
        Seq::empty()
    }
}

/// `a` less `b`, but not less than nothing.
pub open spec fn less(a: nat, b: nat) -> nat {
    if b <= a {
        (a - b) as nat
    } else {
        0
    }
}

/// A name that takes no more than `max` bytes is kept. Of any other the extension is
/// kept, with as much of what stands before it as fits.
pub open spec fn truncated(name: Seq<char>, max: nat) -> Seq<char> {
    if byte_len(name) <= max {
        name
    } else {
        let extension = extension_of(name);
        let stem = name.take(name.len() - extension.len());
        longest_prefix(stem, less(max, byte_len(extension))) + extension
    }
}

/// The name under which a file that a client calls `name` is staged: one component, with
/// nothing in it that a shell or a file system would take amiss.
pub open spec fn sanitized(name: Seq<char>) -> Seq<char> {
    let visible = without_leading_dots(cleaned(last_component(name)));
    if visible.len() == 0 {
        "file"@
    } else {
        truncated(visible, MAX_STAGED_FILE_NAME_BYTES as nat)
    }
}

proof fn lemma_last_component(s: Seq<char>)
    ensures
        last_component(s).len() <= s.len(),
        last_component(s) == s.skip(s.len() - last_component(s).len()),
        forall|i: int|
            0 <= i < last_component(s).len() ==> !separator(#[trigger] last_component(s)[i]),
        (forall|i: int| 0 <= i < s.len() ==> !separator(#[trigger] s[i])) ==> last_component(s)
            == s,
    decreases s.len(),
{
    if s.len() > 0 && !separator(s.last()) {
        let front = s.drop_last();
        lemma_last_component(front);
        assert(last_component(s) =~= s.skip(s.len() - last_component(s).len()));
        if forall|i: int| 0 <= i < s.len() ==> !separator(#[trigger] s[i]) {
            assert forall|i: int| 0 <= i < front.len() implies !separator(#[trigger] front[i]) by {
                assert(front[i] == s[i]);
            }
            assert(last_component(s) =~= s);
        }
    } else {
        assert(last_component(s) =~= s.skip(s.len() as int));
        if s.len() > 0 {
            assert(separator(s[s.len() - 1]));
        }
        assert(s.len() == 0 ==> last_component(s) =~= s);
    }
}

proof fn lemma_cleaned(s: Seq<char>)
    ensures
        forall|i: int|
            0 <= i < cleaned(s).len() ==> !unwelcome(#[trigger] cleaned(s)[i]) && (cleaned(s)[i]
                == '_' || s.contains(cleaned(s)[i])),
        (forall|i: int| 0 <= i < s.len() ==> !unwelcome(#[trigger] s[i])) ==> cleaned(s) == s,
    decreases s.len(),
{
    if s.len() > 0 {
        let front = s.drop_last();
        lemma_cleaned(front);
        assert forall|i: int| 0 <= i < cleaned(s).len() implies !unwelcome(#[trigger] cleaned(s)[i])
            && (cleaned(s)[i] == '_' || s.contains(cleaned(s)[i])) by {
            if i < cleaned(front).len() {
                assert(cleaned(s)[i] == cleaned(front)[i]);
                if cleaned(s)[i] != '_' {
                    let k = choose|k: int| 0 <= k < front.len() && front[k] == cleaned(front)[i];
                    assert(s[k] == cleaned(s)[i]);
                }
            } else {
                assert(s[s.len() - 1] == s.last());
            }
        }
        if forall|i: int| 0 <= i < s.len() ==> !unwelcome(#[trigger] s[i]) {
            assert forall|i: int| 0 <= i < front.len() implies !unwelcome(#[trigger] front[i]) by {
                assert(front[i] == s[i]);
            }
            assert(!unwelcome(s[s.len() - 1]));
            assert(cleaned(s) =~= s);
        }
    } else {
        assert(cleaned(s) =~= s);
    }
}

proof fn lemma_without_leading_dots(s: Seq<char>)
    ensures
        without_leading_dots(s).len() <= s.len(),
        without_leading_dots(s) == s.skip(s.len() - without_leading_dots(s).len()),
        without_leading_dots(s).len() > 0 ==> without_leading_dots(s)[0] != '.',
    decreases s.len(),
{
    if s.len() > 0 && s[0] == '.' {
        lemma_without_leading_dots(s.skip(1));
        assert(s.skip(1).skip(s.skip(1).len() - without_leading_dots(s).len()) =~= s.skip(
            s.len() - without_leading_dots(s).len(),
        ));
    } else {
        assert(s.skip(0) =~= s);
    }
}

proof fn lemma_from_last_dot(s: Seq<char>)
    ensures
        from_last_dot(s).len() <= s.len(),
        from_last_dot(s) == s.skip(s.len() - from_last_dot(s).len()),
        from_last_dot(s).len() > 0 ==> from_last_dot(s)[0] == '.',
    decreases s.len(),
{
    if s.len() > 0 {
        lemma_from_last_dot(s.drop_last());
    }
    assert(from_last_dot(s) =~= s.skip(s.len() - from_last_dot(s).len()));
}

proof fn lemma_longest_prefix(s: Seq<char>, limit: nat)
    ensures
        longest_prefix(s, limit).is_prefix_of(s),
        byte_len(longest_prefix(s, limit)) <= limit,
        s.len() > 0 && limit >= 4 ==> longest_prefix(s, limit).len() > 0,
    decreases s.len(),
{
    if s.len() > 0 && byte_len(s) > limit {
        lemma_longest_prefix(s.drop_last(), limit);
        if s.len() == 1 {
            lemma_width(s.last());
            assert(s.drop_last() =~= Seq::<char>::empty());
        }
    }
}

/// The prefix that fits, where the next character no longer does, is the longest.
proof fn lemma_prefix_is_longest(s: Seq<char>, count: int, limit: nat)
    requires
        0 <= count <= s.len(),
        byte_len(s.take(count)) <= limit,
        count < s.len() ==> byte_len(s.take(count + 1)) > limit,
    ensures
        longest_prefix(s, limit) == s.take(count),
    decreases s.len() - count,
{
    if count == s.len() {
        assert(s.take(count) =~= s);
    } else {
        let front = s.drop_last();
        assert(s =~= s.take(count + 1) + s.skip(count + 1));
        lemma_byte_len_add(s.take(count + 1), s.skip(count + 1));
        assert(front.take(count) =~= s.take(count));
        if count < front.len() {
            assert(front.take(count + 1) =~= s.take(count + 1));
        }
        lemma_prefix_is_longest(front, count, limit);
    }
}

fn longest_prefix_chars(v: &[char], limit: usize) -> (r: Vec<char>)
    ensures
        r@ == longest_prefix(v@, limit as nat),
{
    let mut used: usize = 0;
    let mut count: usize = 0;
    assert(v@.take(0) =~= Seq::<char>::empty());
    while count < v.len()
        invariant
            count <= v@.len(),
            used == byte_len(v@.take(count as int)),
            used <= limit,
        decreases v@.len() - count,
    {
        let size: usize = char_width(v[count]);
        proof {
            assert(v@.take(count + 1).drop_last() =~= v@.take(count as int));
            assert(v@.take(count + 1).last() == v@[count as int]);
        }
        if size > limit - used {
            proof {
                lemma_prefix_is_longest(v@, count as int, limit as nat);
            }
            return slice_chars(v, 0, count);
        }
        used += size;
        count += 1;
    }
    proof {
        lemma_prefix_is_longest(v@, count as int, limit as nat);
    }
    slice_chars(v, 0, count)
}

/// Cuts a name down to `max_bytes`, keeping its extension.
pub fn truncate_file_name(name: &str, max_bytes: usize) -> (r: String)
    ensures
        r@ == truncated(name@, max_bytes as nat),
{
    if byte_size(name) <= max_bytes {
        return copy_of(name);
    }
    let chars = chars_of(name);
    let mut dot: usize = chars.len();
    let mut i: usize = 0;
    assert(chars@.take(0) =~= Seq::<char>::empty());
    while i < chars.len()
        invariant
            i <= chars@.len(),
            chars@ == name@,
            dot == chars@.len() ==> from_last_dot(chars@.take(i as int)).len() == 0,
            dot < chars@.len() ==> dot < i && from_last_dot(chars@.take(i as int)).len() == i - dot,
            dot <= chars@.len(),
        decreases chars@.len() - i,
    {
        assert(chars@.take(i + 1).drop_last() =~= chars@.take(i as int));
        if chars[i] == '.' {
            dot = i;
        }
        i += 1;
    }
    assert(chars@.take(i as int) =~= chars@);
    proof {
        lemma_from_last_dot(chars@);
    }
    let mut extension = slice_chars(&chars, dot, chars.len());
    assert(extension@ =~= from_last_dot(name@));
    if byte_size(string_of(&extension).as_str()) > 16 {
        dot = chars.len();
        extension = Vec::new();
        assert(extension@ =~= Seq::<char>::empty());
    }
    let size: usize = byte_size(string_of(&extension).as_str());
    let limit: usize = if size <= max_bytes {
        max_bytes - size
    } else {
        0
    };
    let stem = slice_chars(&chars, 0, dot);
    assert(stem@ =~= name@.take(name@.len() - extension@.len()));
    let mut out = longest_prefix_chars(&stem, limit);
    out.append(&mut extension);
    string_of(&out)
}

/// The name under which a file that a client calls `name` is staged.
pub fn sanitize_file_name(name: &str) -> (r: String)
    ensures
        r@ == sanitized(name@),
{
    let chars = chars_of(name);
    let mut start: usize = chars.len();
    assert(chars@.take(start as int) =~= chars@);
    assert(last_component(chars@) =~= last_component(chars@) + chars@.skip(start as int));
    while start > 0 && !(chars[start - 1] == '/' || chars[start - 1] == '\\')
        invariant
            start <= chars@.len(),
            last_component(chars@) == last_component(chars@.take(start as int)) + chars@.skip(
                start as int,
            ),
        decreases start,
    {
        proof {
            let front = chars@.take(start as int);
            assert(front.drop_last() =~= chars@.take(start - 1));
            assert(last_component(front) == last_component(chars@.take(start - 1)).push(
                chars@[start - 1],
            ));
            assert(last_component(chars@.take(start - 1)).push(chars@[start - 1]) + chars@.skip(
                start as int,
            ) =~= last_component(chars@.take(start - 1)) + chars@.skip(start - 1));
        }
        start -= 1;
    }
    assert(last_component(chars@.take(start as int)) =~= Seq::<char>::empty());
    assert(last_component(chars@) =~= chars@.skip(start as int));
    let ghost last = last_component(name@);
    let mut all: Vec<char> = Vec::new();
    let mut i: usize = start;
    assert(last.take(0) =~= Seq::<char>::empty());
    while i < chars.len()
        invariant
            start <= i <= chars@.len(),
            last == chars@.skip(start as int),
            all@ == cleaned(last.take(i - start)),
        decreases chars@.len() - i,
    {
        let c = chars[i];
        let ghost part = last.take(i - start + 1);
        assert(part.drop_last() =~= last.take(i - start));
        assert(part.last() == c);
        if !is_unwelcome(c) {
            all.push(c);
        } else if !(i - start >= 2 && is_reserved(c) && is_reserved(chars[i - 1]) && is_reserved(
            chars[i - 2],
        )) {
            all.push('_');
        }
        i += 1;
    }
    assert(last.take(i - start) =~= last);
    let mut first: usize = 0;
    assert(all@.skip(0) =~= all@);
    while first < all.len() && all[first] == '.'
        invariant
            first <= all@.len(),
            without_leading_dots(all@) == without_leading_dots(all@.skip(first as int)),
        decreases all@.len() - first,
    {
        assert(all@.skip(first as int).skip(1) =~= all@.skip(first + 1));
        first += 1;
    }
    let rest = slice_chars(&all, first, all.len());
    assert(rest@ =~= all@.skip(first as int));
    if rest.len() == 0 {
        return copy_of("file");
    }
    truncate_file_name(string_of(&rest).as_str(), MAX_STAGED_FILE_NAME_BYTES)
}

/// A name that is cut down keeps its extension and fits the limit, and no character more
/// of what stands before the extension would fit.
pub proof fn law_truncation_keeps_the_extension(name: Seq<char>, max: nat)
    requires
        max >= 16,
        byte_len(name) > max,
    ensures
        ({
            let extension = extension_of(name);
            let count = truncated(name, max).len() - extension.len();
            &&& byte_len(truncated(name, max)) <= max
            &&& 0 <= count < name.len() - extension.len()
            &&& truncated(name, max) == name.take(count) + extension
            &&& byte_len(name.take(count + 1) + extension) > max
        }),
{
    let extension = extension_of(name);
    lemma_from_last_dot(name);
    let stem = name.take(name.len() - extension.len());
    let limit = less(max, byte_len(extension));
    assert(byte_len(extension) <= 16) by {
        assert(byte_len(Seq::<char>::empty()) == 0);
    }
    lemma_longest_prefix(stem, limit);
    let kept = longest_prefix(stem, limit);
    let count = kept.len() as int;
    lemma_byte_len_add(kept, extension);
    assert(name =~= stem + name.skip(name.len() - extension.len()));
    assert(extension =~= name.skip(name.len() - extension.len())) by {
        if extension.len() > 0 {
            assert(extension == from_last_dot(name));
        }
    }
    lemma_byte_len_add(stem, extension);
    assert(byte_len(stem) > limit);
    lemma_longest_prefix_is_maximal(stem, limit);
    assert(kept =~= name.take(count));
    assert(stem.take(count + 1) =~= name.take(count + 1));
    lemma_byte_len_add(name.take(count + 1), extension);
}

proof fn lemma_longest_prefix_is_maximal(s: Seq<char>, limit: nat)
    requires
        byte_len(s) > limit,
    ensures
        ({
            let count = longest_prefix(s, limit).len() as int;
            count < s.len() && byte_len(s.take(count + 1)) > limit
        }),
    decreases s.len(),
{
    let front = s.drop_last();
    if s.len() > 0 {
        if byte_len(front) > limit {
            lemma_longest_prefix_is_maximal(front, limit);
            let count = longest_prefix(front, limit).len() as int;
            assert(front.take(count + 1) =~= s.take(count + 1));
        } else {
            assert(longest_prefix(front, limit) == front);
            assert(s.take(s.len() as int) =~= s);
        }
    }
}

/// A name that can stand in a path and on a shell's command line as it is.
pub open spec fn safe_name(name: Seq<char>) -> bool {
    &&& 0 < name.len()
    &&& byte_len(name) <= MAX_STAGED_FILE_NAME_BYTES
    &&& name[0] != '.'
    &&& forall|i: int| 0 <= i < name.len() ==> !separator(#[trigger] name[i]) && !unwelcome(name[i])
}

/// Whatever a client calls a file, the staged name is one path component: not empty, not
/// hidden, neither `.` nor `..`, no longer than the limit, and free of separators,
/// control characters, whitespace and reserved characters.
pub proof fn law_staged_name_is_safe(name: Seq<char>)
    ensures
        safe_name(sanitized(name)),
{
    let last = last_component(name);
    let clean = cleaned(last);
    let visible = without_leading_dots(clean);
    lemma_last_component(name);
    lemma_cleaned(last);
    lemma_without_leading_dots(clean);
    reveal_strlit("file");
    if visible.len() == 0 {
        let s = "file"@;
        assert(s.len() == 4);
        assert(byte_len(s) <= 16) by {
            reveal_with_fuel(byte_len, 5);
            lemma_width('f');
            lemma_width('i');
            lemma_width('l');
            lemma_width('e');
        }
    } else {
        assert forall|i: int| 0 <= i < visible.len() implies !separator(#[trigger] visible[i])
            && !unwelcome(visible[i]) by {
            let j = i + clean.len() - visible.len();
            assert(visible[i] == clean[j]);
            if clean[j] != '_' {
                let k = choose|k: int| 0 <= k < last.len() && last[k] == clean[j];
                assert(!separator(last[k]));
            }
        }
        let max = MAX_STAGED_FILE_NAME_BYTES as nat;
        if byte_len(visible) > max {
            let extension = extension_of(visible);
            lemma_from_last_dot(visible);
            assert(extension.len() <= visible.len());
            assert(extension =~= visible.skip(visible.len() - extension.len()));
            let stem = visible.take(visible.len() - extension.len());
            let limit = less(max, byte_len(extension));
            assert(byte_len(extension) <= 16);
            assert(stem.len() > 0) by {
                if stem.len() == 0 {
                    assert(extension =~= visible);
                }
            }
            lemma_longest_prefix(stem, limit);
            let kept = longest_prefix(stem, limit);
            lemma_byte_len_add(kept, extension);
            let r = kept + extension;
            assert forall|i: int| 0 <= i < r.len() implies !separator(#[trigger] r[i])
                && !unwelcome(r[i]) by {
                if i < kept.len() {
                    assert(r[i] == kept[i]);
                    assert(kept[i] == stem[i]);
                    assert(r[i] == visible[i]);
                } else {
                    assert(r[i] == visible[visible.len() - extension.len() + (i - kept.len())]);
                }
            }
            assert(r[0] == kept[0]);
            assert(kept[0] == stem[0]);
        }
    }
}

/// A staged name is kept as it is: sanitizing again changes nothing.
pub proof fn law_safe_name_is_kept(name: Seq<char>)
    requires
        safe_name(name),
    ensures
        sanitized(name) == name,
{
    lemma_last_component(name);
    assert(last_component(name) == name);
    lemma_cleaned(name);
}

// ---------------------------------------------------------------------------
// Image extensions
// ---------------------------------------------------------------------------

/// The extension under which an image is staged: the known one that the client gave, and
/// `png` for anything else.
pub open spec fn known_extension(extension: Seq<char>) -> Seq<char> {
    if eq_ignore_case(extension, "jpg"@) || eq_ignore_case(extension, "jpeg"@) {
        "jpg"@
    } else if eq_ignore_case(extension, "gif"@) {
        "gif"@
    } else if eq_ignore_case(extension, "webp"@) {
        "webp"@
    } else if eq_ignore_case(extension, "bmp"@) {
        "bmp"@
    } else {
        "png"@
    }
}

/// The extension under which an image is staged.
pub fn sanitize_extension(extension: &str) -> (r: &'static str)
    ensures
        r@ == known_extension(extension@),
{
    if same_ignore_case(extension, "jpg") || same_ignore_case(extension, "jpeg") {
        "jpg"
    } else if same_ignore_case(extension, "gif") {
        "gif"
    } else if same_ignore_case(extension, "webp") {
        "webp"
    } else if same_ignore_case(extension, "bmp") {
        "bmp"
    } else {
        "png"
    }
}

// ---------------------------------------------------------------------------
// Directories
// ---------------------------------------------------------------------------

/// The directory `prefix` of the user `user_id`, in the directory for temporary files.
pub open spec fn user_dir(prefix: Seq<char>, user_id: u32) -> Seq<char> {
    prefix.push('-') + decimal(user_id as nat)
}

fn staging_dir_named(prefix: &str, user_id: u32) -> (r: String)
    ensures
        r@ == user_dir(prefix@, user_id),
{
    let mut out = copy_of(prefix);
    out.push('-');
    out.push_str(decimal_string(user_id as u128).as_str());
    out
}

/// The directory for staged images.
pub fn staging_dir(user_id: u32) -> (r: String)
    ensures
        r@ == user_dir("tanuki-clipboard-images"@, user_id),
{
    staging_dir_named("tanuki-clipboard-images", user_id)
}

/// The directory for staged files.
pub fn files_staging_dir(user_id: u32) -> (r: String)
    ensures
        r@ == user_dir("tanuki-files"@, user_id),
{
    staging_dir_named("tanuki-files", user_id)
}

fn ensure_dir(is_dir: bool, dir: &str, what: &str) -> (r: Result<(), String>)
    ensures
        match r {
            Ok(()) => is_dir,
            Err(message) => !is_dir && message@ == what@ + " staging path is not a directory: "@
                + dir@,
        },
{
    if is_dir {
        return Ok(());
    }
    let mut message = copy_of(what);
    message.push_str(" staging path is not a directory: ");
    message.push_str(dir);
    Err(message)
}

/// Whether the directory for staged images can be used, given what is found there.
pub fn ensure_staging_dir(is_dir: bool, dir: &str) -> (r: Result<(), String>)
    ensures
        match r {
            Ok(()) => is_dir,
            Err(message) => !is_dir && message@ == "clipboard image"@
                + " staging path is not a directory: "@ + dir@,
        },
{
    ensure_dir(is_dir, dir, "clipboard image")
}

/// Whether the directory for staged files can be used, given what is found there.
pub fn ensure_files_staging_dir(is_dir: bool, dir: &str) -> (r: Result<(), String>)
    ensures
        match r {
            Ok(()) => is_dir,
            Err(message) => !is_dir && message@ == "file"@ + " staging path is not a directory: "@
                + dir@,
        },
{
    ensure_dir(is_dir, dir, "file")
}

/// The permissions that a staged file gets: its owner's alone, where there are such.
pub fn restrict_file_options(unix: bool) -> (r: Option<u32>)
    ensures
        r == if unix {
            Some(0o600u32)
        } else {
            None
        },
{
    if unix {
        Some(0o600)
    } else {
        None
    }
}

/// The permissions that a staging directory gets: its owner's alone, where there are such.
pub fn restrict_dir_permissions(unix: bool) -> (r: Option<u32>)
    ensures
        r == if unix {
            Some(0o700u32)
        } else {
            None
        },
{
    if unix {
        Some(0o700)
    } else {
        None
    }
}

// ---------------------------------------------------------------------------
// Finding a free name
// ---------------------------------------------------------------------------

/// The directory of one upload.
pub open spec fn upload_dir_text(client_id: u64, unique: u128, attempt: u32) -> Seq<char> {
    "client-"@ + (decimal(client_id as nat).push('-') + (decimal(unique as nat).push('-')
        + decimal(attempt as nat)))
}

fn upload_dir_name(client_id: u64, unique: u128, attempt: u32) -> (r: String)
    ensures
        r@ == upload_dir_text(client_id, unique, attempt),
{
    let mut out = copy_of("client-");
    out.push_str(decimal_string(client_id as u128).as_str());
    out.push('-');
    out.push_str(decimal_string(unique).as_str());
    out.push('-');
    out.push_str(decimal_string(attempt as u128).as_str());
    assert(out@ =~= upload_dir_text(client_id, unique, attempt));
    out
}

/// The file name of one staged image.
pub open spec fn image_text(
    client_id: u64,
    unique: u128,
    attempt: u32,
    extension: Seq<char>,
) -> Seq<char> {
    "client-"@ + (decimal(client_id as nat).push('-') + ("clipboard-"@ + (decimal(
        unique as nat,
    ).push('-') + (decimal(attempt as nat).push('.') + extension))))
}

fn image_name(client_id: u64, unique: u128, attempt: u32, extension: &str) -> (r: String)
    ensures
        r@ == image_text(client_id, unique, attempt, extension@),
{
    let mut out = copy_of("client-");
    out.push_str(decimal_string(client_id as u128).as_str());
    out.push('-');
    out.push_str("clipboard-");
    out.push_str(decimal_string(unique).as_str());
    out.push('-');
    out.push_str(decimal_string(attempt as u128).as_str());
    out.push('.');
    out.push_str(extension);
    assert(out@ =~= image_text(client_id, unique, attempt, extension@));
    out
}

/// What happened on disk.
#[derive(Debug, Clone, Copy, PartialEq, Eq, Structural)]
pub enum StageEvent {
    /// Staging begins.
    Begin,
    /// What was asked for was done.
    Done,
    /// The name asked for is taken.
    Exists,
    /// What was asked for failed in another way.
    Failed,
}

/// What is to be done on disk.
#[derive(Debug, PartialEq, Eq)]
pub enum StageAction {
    /// Create the file of this name, which must not exist yet.
    CreateFile(String),
    /// Create the directory of this name, which must not exist yet.
    CreateDir(String),
    /// Make the new directory private.
    RestrictDir,
    /// Create the file of this name in the new directory and write the data to it.
    WriteFileInDir(String),
    /// Write the data to the new file.
    Write,
    /// Remove the new directory; staging fails with the error at hand.
    RemoveDir,
    /// Staging has succeeded.
    Finished,
    /// Staging fails with the error at hand.
    Fail,
    /// Staging fails with this message.
    GiveUp(String),
}

/// The model of [`StageAction`].
pub enum StageActionView {
    CreateFile(Seq<char>),
    CreateDir(Seq<char>),
    RestrictDir,
    WriteFileInDir(Seq<char>),
    Write,
    RemoveDir,
    Finished,
    Fail,
    GiveUp(Seq<char>),
}

impl StageAction {
    /// The model of the action.
    pub open spec fn view(&self) -> StageActionView {
        match self {
            StageAction::CreateFile(name) => StageActionView::CreateFile(name@),
            StageAction::CreateDir(name) => StageActionView::CreateDir(name@),
            StageAction::RestrictDir => StageActionView::RestrictDir,
            StageAction::WriteFileInDir(name) => StageActionView::WriteFileInDir(name@),
            StageAction::Write => StageActionView::Write,
            StageAction::RemoveDir => StageActionView::RemoveDir,
            StageAction::Finished => StageActionView::Finished,
            StageAction::Fail => StageActionView::Fail,
            StageAction::GiveUp(message) => StageActionView::GiveUp(message@),
        }
    }
}

/// How far staging has come.
#[derive(Debug, Clone, Copy, PartialEq, Eq, Structural)]
pub enum StagePhase {
    /// A name is being claimed.
    Claiming,
    /// The claimed directory is being made private.
    Restricting,
    /// The data is being written.
    Writing,
    /// Staging is over.
    Over,
}

/// What is staged.
pub enum StageKind {
    /// A clipboard image with this extension.
    Image(Seq<char>),
    /// A file with this name, in a directory of its own.
    File(Seq<char>),
}

/// What one staging stands for.
#[verifier::ext_equal]
pub struct StagingView {
    pub client_id: u64,
    pub unique: u128,
    pub kind: StageKind,
    pub attempt: u32,
    pub phase: StagePhase,
}

impl StagingView {
    /// The claim of the name for the current attempt.
    pub open spec fn claim(self) -> StageActionView {
        match self.kind {
            StageKind::Image(extension) => StageActionView::CreateFile(
                image_text(self.client_id, self.unique, self.attempt, extension),
            ),
            StageKind::File(_) => StageActionView::CreateDir(
                upload_dir_text(self.client_id, self.unique, self.attempt),
            ),
        }
    }

    /// What is said when every name was taken.
    pub open spec fn exhausted(self) -> StageActionView {
        match self.kind {
            StageKind::Image(_) => StageActionView::GiveUp(
                "failed to allocate unique clipboard image staging path"@,
            ),
            StageKind::File(_) => StageActionView::GiveUp(
                "failed to allocate unique file staging directory"@,
            ),
        }
    }

    /// The staging after an event, and what is to be done then.
    pub open spec fn step(self, event: StageEvent) -> (Self, StageActionView) {
        let over = StagingView { phase: StagePhase::Over, ..self };
        match (self.phase, event) {
            (StagePhase::Claiming, StageEvent::Begin) => (self, self.claim()),
            (StagePhase::Claiming, StageEvent::Exists) => if self.attempt + 1 < STAGING_ATTEMPTS {
                let next = StagingView { attempt: (self.attempt + 1) as u32, ..self };
                (next, next.claim())
            } else {
                (over, self.exhausted())
            },
            (StagePhase::Claiming, StageEvent::Done) => match self.kind {
                StageKind::Image(_) => (
                    StagingView { phase: StagePhase::Writing, ..self },
                    StageActionView::Write,
                ),
                StageKind::File(_) => (
                    StagingView { phase: StagePhase::Restricting, ..self },
                    StageActionView::RestrictDir,
                ),
            },
            (StagePhase::Restricting, StageEvent::Done) => match self.kind {
                StageKind::File(name) => (
                    StagingView { phase: StagePhase::Writing, ..self },
                    StageActionView::WriteFileInDir(name),
                ),
                StageKind::Image(_) => (over, StageActionView::Fail),
            },
            (StagePhase::Writing, StageEvent::Done) => (over, StageActionView::Finished),
            (StagePhase::Writing, _) => match self.kind {
                StageKind::File(_) => (over, StageActionView::RemoveDir),
                StageKind::Image(_) => (over, StageActionView::Fail),
            },
            _ => (over, StageActionView::Fail),
        }
    }
}

/// One staging in progress.
pub struct Staging {
    client_id: u64,
    unique: u128,
    image_extension: Option<&'static str>,
    name: String,
    attempt: u32,
    phase: StagePhase,
}

impl Staging {
    /// The model of the staging.
    pub closed spec fn view(&self) -> StagingView {
        StagingView {
            client_id: self.client_id,
            unique: self.unique,
            kind: match self.image_extension {
                Some(extension) => StageKind::Image(extension@),
                None => StageKind::File(self.name@),
            },
            attempt: self.attempt,
            phase: self.phase,
        }
    }

    fn claim(&self) -> (r: StageAction)
        ensures
            r@ == self@.claim(),
    {
        match self.image_extension {
            Some(extension) => StageAction::CreateFile(
                image_name(self.client_id, self.unique, self.attempt, extension),
            ),
            None => StageAction::CreateDir(
                upload_dir_name(self.client_id, self.unique, self.attempt),
            ),
        }
    }

    /// What is to be done after an event.
    pub fn step(&mut self, event: StageEvent) -> (r: StageAction)
        requires
            old(self)@.attempt < STAGING_ATTEMPTS,
        ensures
            (final(self)@, r@) == old(self)@.step(event),
            final(self)@.attempt < STAGING_ATTEMPTS,
    {
        let is_image = self.image_extension.is_some();
        match (self.phase, event) {
            (StagePhase::Claiming, StageEvent::Begin) => self.claim(),
            (StagePhase::Claiming, StageEvent::Exists) => {
                if self.attempt + 1 < STAGING_ATTEMPTS {
                    self.attempt = self.attempt + 1;
                    self.claim()
                } else {
                    self.phase = StagePhase::Over;
                    if is_image {
                        StageAction::GiveUp(
                            copy_of("failed to allocate unique clipboard image staging path"),
                        )
                    } else {
                        StageAction::GiveUp(
                            copy_of("failed to allocate unique file staging directory"),
                        )
                    }
                }
            },
            (StagePhase::Claiming, StageEvent::Done) => {
                if is_image {
                    self.phase = StagePhase::Writing;
                    StageAction::Write
                } else {
                    self.phase = StagePhase::Restricting;
                    StageAction::RestrictDir
                }
            },
            (StagePhase::Restricting, StageEvent::Done) => {
                if is_image {
                    self.phase = StagePhase::Over;
                    StageAction::Fail
                } else {
                    self.phase = StagePhase::Writing;
                    StageAction::WriteFileInDir(self.name.clone())
                }
            },
            (StagePhase::Writing, StageEvent::Done) => {
                self.phase = StagePhase::Over;
                StageAction::Finished
            },
            (StagePhase::Writing, _) => {
                self.phase = StagePhase::Over;
                if is_image {
                    StageAction::Fail
                } else {
                    StageAction::RemoveDir
                }
            },
            _ => {
                self.phase = StagePhase::Over;
                StageAction::Fail
            },
        }
    }
}

/// Begins to stage a clipboard image that a client sent at the time `unique`.
pub fn stage(client_id: u64, extension: &str, unique: u128) -> (r: Staging)
    ensures
        r@ == (StagingView {
            client_id,
            unique,
            kind: StageKind::Image(known_extension(extension@)),
            attempt: 0,
            phase: StagePhase::Claiming,
        }),
{
    Staging {
        client_id,
        unique,
        image_extension: Some(sanitize_extension(extension)),
        name: String::new(),
        attempt: 0,
        phase: StagePhase::Claiming,
    }
}

/// Begins to stage a file that a client sent at the time `unique`.
pub fn stage_file(client_id: u64, name: &str, unique: u128) -> (r: Staging)
    ensures
        r@ == (StagingView {
            client_id,
            unique,
            kind: StageKind::File(sanitized(name@)),
            attempt: 0,
            phase: StagePhase::Claiming,
        }),
{
    Staging {
        client_id,
        unique,
        image_extension: None,
        name: sanitize_file_name(name),
        attempt: 0,
        phase: StagePhase::Claiming,
    }
}

proof fn lemma_decimal_has_no_dash(n: nat)
    ensures
        !decimal(n).contains('-'),
        !decimal(n).contains('.'),
{
    lemma_radix_digits(n, 10);
    if decimal(n).contains('-') {
        let i = choose|i: int| 0 <= i < decimal(n).len() && decimal(n)[i] == '-';
        assert(decimal(n)[i] == '-');
    }
    if decimal(n).contains('.') {
        let i = choose|i: int| 0 <= i < decimal(n).len() && decimal(n)[i] == '.';
        assert(decimal(n)[i] == '.');
    }
}

proof fn lemma_same_start(a: Seq<char>, s: Seq<char>, t: Seq<char>)
    requires
        a + s == a + t,
    ensures
        s == t,
{
    assert(s =~= (a + s).skip(a.len() as int));
    assert(t =~= (a + t).skip(a.len() as int));
}

/// No two uploads share a directory: its name tells the client, the time and the attempt
/// apart, so that no upload is written over an earlier one.
pub proof fn law_uploads_have_their_own_directory(
    client_a: u64,
    unique_a: u128,
    attempt_a: u32,
    client_b: u64,
    unique_b: u128,
    attempt_b: u32,
)
    requires
        upload_dir_text(client_a, unique_a, attempt_a) == upload_dir_text(
            client_b,
            unique_b,
            attempt_b,
        ),
    ensures
        client_a == client_b,
        unique_a == unique_b,
        attempt_a == attempt_b,
{
    lemma_decimal_has_no_dash(client_a as nat);
    lemma_decimal_has_no_dash(client_b as nat);
    lemma_decimal_has_no_dash(unique_a as nat);
    lemma_decimal_has_no_dash(unique_b as nat);
    let rest_a = decimal(unique_a as nat).push('-') + decimal(attempt_a as nat);
    let rest_b = decimal(unique_b as nat).push('-') + decimal(attempt_b as nat);
    lemma_same_start(
        "client-"@,
        decimal(client_a as nat).push('-') + rest_a,
        decimal(client_b as nat).push('-') + rest_b,
    );
    lemma_first_field(decimal(client_a as nat), rest_a, decimal(client_b as nat), rest_b, '-');
    lemma_first_field(
        decimal(unique_a as nat),
        decimal(attempt_a as nat),
        decimal(unique_b as nat),
        decimal(attempt_b as nat),
        '-',
    );
    lemma_radix_injective(client_a as nat, client_b as nat, 10);
    lemma_radix_injective(unique_a as nat, unique_b as nat, 10);
    lemma_radix_injective(attempt_a as nat, attempt_b as nat, 10);
}

/// No two staged images share a file: its name tells the client, the time and the
/// attempt apart.
pub proof fn law_images_have_their_own_file(
    client_a: u64,
    unique_a: u128,
    attempt_a: u32,
    extension_a: Seq<char>,
    client_b: u64,
    unique_b: u128,
    attempt_b: u32,
    extension_b: Seq<char>,
)
    requires
        image_text(client_a, unique_a, attempt_a, extension_a) == image_text(
            client_b,
            unique_b,
            attempt_b,
            extension_b,
        ),
    ensures
        client_a == client_b,
        unique_a == unique_b,
        attempt_a == attempt_b,
        extension_a == extension_b,
{
    lemma_decimal_has_no_dash(client_a as nat);
    lemma_decimal_has_no_dash(client_b as nat);
    lemma_decimal_has_no_dash(unique_a as nat);
    lemma_decimal_has_no_dash(unique_b as nat);
    lemma_decimal_has_no_dash(attempt_a as nat);
    lemma_decimal_has_no_dash(attempt_b as nat);
    let tail_a = decimal(attempt_a as nat).push('.') + extension_a;
    let tail_b = decimal(attempt_b as nat).push('.') + extension_b;
    let mid_a = decimal(unique_a as nat).push('-') + tail_a;
    let mid_b = decimal(unique_b as nat).push('-') + tail_b;
    lemma_same_start(
        "client-"@,
        decimal(client_a as nat).push('-') + ("clipboard-"@ + mid_a),
        decimal(client_b as nat).push('-') + ("clipboard-"@ + mid_b),
    );
    lemma_first_field(
        decimal(client_a as nat),
        "clipboard-"@ + mid_a,
        decimal(client_b as nat),
        "clipboard-"@ + mid_b,
        '-',
    );
    lemma_same_start("clipboard-"@, mid_a, mid_b);
    lemma_first_field(decimal(unique_a as nat), tail_a, decimal(unique_b as nat), tail_b, '-');
    lemma_first_field(
        decimal(attempt_a as nat),
        extension_a,
        decimal(attempt_b as nat),
        extension_b,
        '.',
    );
    lemma_radix_injective(client_a as nat, client_b as nat, 10);
    lemma_radix_injective(unique_a as nat, unique_b as nat, 10);
    lemma_radix_injective(attempt_a as nat, attempt_b as nat, 10);
}

/// The staging after its first `taken` names were found taken.
pub open spec fn after_collisions(staging: StagingView, taken: nat) -> (StagingView, StageActionView)
    decreases taken,
{
    if taken == 0 {
        staging.step(StageEvent::Begin)
    } else {
        after_collisions(staging, (taken - 1) as nat).0.step(StageEvent::Exists)
    }
}

/// A taken name is never written to: each collision leads to the claim of the next name,
/// and after the last one staging is given up.
pub proof fn law_collisions_lead_to_the_next_name(staging: StagingView, taken: nat)
    requires
        staging.attempt == 0,
        staging.phase == StagePhase::Claiming,
        taken <= STAGING_ATTEMPTS,
    ensures
        taken < STAGING_ATTEMPTS ==> after_collisions(staging, taken) == {
            let next = StagingView { attempt: taken as u32, ..staging };
            (next, next.claim())
        },
        taken == STAGING_ATTEMPTS ==> after_collisions(staging, taken).1 == staging.exhausted(),
    decreases taken,
{
    if taken == 0 {
        assert(StagingView { attempt: 0, ..staging } =~= staging);
    } else {
        law_collisions_lead_to_the_next_name(staging, (taken - 1) as nat);
    }
}

/// What is in the directory for staged files: the directories of the uploads, and their
/// files by directory and name.
#[verifier::ext_equal]
pub struct DiskView {
    pub dirs: Set<Seq<char>>,
    pub files: Map<(Seq<char>, Seq<char>), Seq<u8>>,
}

impl DiskView {
    /// Every file lies in a directory that is there.
    pub open spec fn valid(self) -> bool {
        forall|path: (Seq<char>, Seq<char>)| #[trigger]
            self.files.contains_key(path) ==> self.dirs.contains(path.0)
    }

    /// What comes of an action on a disk on which nothing fails: a directory or file that
    /// must not exist yet is refused where it does. With it the disk, and the directory
    /// that is claimed then.
    pub open spec fn act(self, claimed: Seq<char>, action: StageActionView, data: Seq<u8>) -> (
        StageEvent,
        DiskView,
        Seq<char>,
    ) {
        match action {
            StageActionView::CreateDir(name) => if self.dirs.contains(name) {
                (StageEvent::Exists, self, claimed)
            } else {
                (StageEvent::Done, DiskView { dirs: self.dirs.insert(name), ..self }, name)
            },
            StageActionView::WriteFileInDir(name) => if self.files.contains_key((claimed, name)) {
                (StageEvent::Exists, self, claimed)
            } else {
                (
                    StageEvent::Done,
                    DiskView { files: self.files.insert((claimed, name), data), ..self },
                    claimed,
                )
            },
            _ => (StageEvent::Done, self, claimed),
        }
    }

    /// The disk, the claimed directory and the last action when a staging that goes on with
    /// `action` is over; it takes at most `steps` steps.
    pub open spec fn carry_out(
        self,
        staging: StagingView,
        claimed: Seq<char>,
        action: StageActionView,
        data: Seq<u8>,
        steps: nat,
    ) -> (DiskView, Seq<char>, StageActionView)
        decreases steps,
    {
        if steps == 0 || staging.phase == StagePhase::Over {
            (self, claimed, action)
        } else {
            let (event, disk, dir) = self.act(claimed, action, data);
            let (next, then) = staging.step(event);
            disk.carry_out(next, dir, then, data, (steps - 1) as nat)
        }
    }

    /// The disk after an upload, with the directory it claimed and the last action.
    pub open spec fn upload(self, upload: Upload) -> (DiskView, Seq<char>, StageActionView) {
        let staging = upload.staging();
        self.carry_out(
            staging,
            Seq::empty(),
            staging.step(StageEvent::Begin).1,
            upload.data,
            (STAGING_ATTEMPTS + 3) as nat,
        )
    }
}

/// One upload: who sends what, under which name and when.
pub struct Upload {
    pub client_id: u64,
    pub name: Seq<char>,
    pub unique: u128,
    pub data: Seq<u8>,
}

impl Upload {
    /// What [`stage_file`] begins.
    pub open spec fn staging(self) -> StagingView {
        StagingView {
            client_id: self.client_id,
            unique: self.unique,
            kind: StageKind::File(sanitized(self.name)),
            attempt: 0,
            phase: StagePhase::Claiming,
        }
    }

    /// The directory for the given attempt is free.
    pub open spec fn free(self, disk: DiskView, attempt: int) -> bool {
        0 <= attempt < STAGING_ATTEMPTS && !disk.dirs.contains(
            upload_dir_text(self.client_id, self.unique, attempt as u32),
        )
    }

    /// The disk after this upload was written to the directory `dir`.
    pub open spec fn written(self, disk: DiskView, dir: Seq<char>) -> DiskView {
        DiskView {
            dirs: disk.dirs.insert(dir),
            files: disk.files.insert((dir, sanitized(self.name)), self.data),
        }
    }
}

proof fn lemma_carry_out(
    disk: DiskView,
    upload: Upload,
    attempt: int,
    claimed: Seq<char>,
    steps: nat,
)
    requires
        disk.valid(),
        0 <= attempt < STAGING_ATTEMPTS,
        steps >= STAGING_ATTEMPTS + 3 - attempt,
    ensures
        ({
            let staging = StagingView { attempt: attempt as u32, ..upload.staging() };
            let (after, dir, ending) = disk.carry_out(
                staging,
                claimed,
                staging.claim(),
                upload.data,
                steps,
            );
            if exists|k: int| k >= attempt && #[trigger] upload.free(disk, k) {
                &&& ending is Finished
                &&& !disk.dirs.contains(dir)
                &&& after == upload.written(disk, dir)
            } else {
                ending == staging.exhausted() && after == disk
            }
        }),
    decreases STAGING_ATTEMPTS - attempt,
{
    let staging = StagingView { attempt: attempt as u32, ..upload.staging() };
    let name = upload_dir_text(upload.client_id, upload.unique, attempt as u32);
    let rest = (steps - 1) as nat;
    let (event, disk1, dir1) = disk.act(claimed, staging.claim(), upload.data);
    let (next, then) = staging.step(event);
    assert(disk.carry_out(staging, claimed, staging.claim(), upload.data, steps)
        == disk1.carry_out(next, dir1, then, upload.data, rest));
    if disk.dirs.contains(name) {
        assert(!upload.free(disk, attempt));
        if attempt + 1 < STAGING_ATTEMPTS {
            assert(next == StagingView { attempt: (attempt + 1) as u32, ..upload.staging() });
            lemma_carry_out(disk, upload, attempt + 1, claimed, rest);
            if exists|k: int| k >= attempt && #[trigger] upload.free(disk, k) {
                let k = choose|k: int| k >= attempt && #[trigger] upload.free(disk, k);
                assert(k >= attempt + 1 && upload.free(disk, k));
            }
        } else {
            assert(forall|k: int| k >= attempt ==> !#[trigger] upload.free(disk, k));
        }
    } else {
        assert(upload.free(disk, attempt));
        let (_, disk2, dir2) = disk1.act(dir1, then, upload.data);
        let (next2, then2) = next.step(StageEvent::Done);
        assert(!disk1.files.contains_key((name, sanitized(upload.name))));
        let (_, disk3, dir3) = disk2.act(dir2, then2, upload.data);
        let (next3, then3) = next2.step(StageEvent::Done);
        reveal_with_fuel(DiskView::carry_out, 5);
        assert(disk3 == upload.written(disk, name));
    }
}

/// An upload succeeds exactly when one of the names that it tries is free. Then it has
/// claimed a directory that was not there, and its file stands in it under the sanitized
/// name; nothing else has changed. Otherwise nothing has changed at all.
pub proof fn law_upload_claims_a_new_directory(disk: DiskView, upload: Upload)
    requires
        disk.valid(),
    ensures
        ({
            let (after, dir, ending) = disk.upload(upload);
            if exists|attempt: int| #[trigger] upload.free(disk, attempt) {
                &&& ending is Finished
                &&& !disk.dirs.contains(dir)
                &&& after == upload.written(disk, dir)
                &&& after.valid()
            } else {
                ending is GiveUp && after == disk
            }
        }),
{
    lemma_carry_out(disk, upload, 0, Seq::empty(), (STAGING_ATTEMPTS + 3) as nat);
    assert(StagingView { attempt: 0, ..upload.staging() } =~= upload.staging());
    if exists|attempt: int| #[trigger] upload.free(disk, attempt) {
        let attempt = choose|attempt: int| #[trigger] upload.free(disk, attempt);
        assert(attempt >= 0 && upload.free(disk, attempt));
    }
}

/// An earlier upload is never overwritten: of two uploads that succeed, one after the
/// other, each has a path of its own, even from one client, under one name and at one
/// time. Each path ends in the sanitized name, and both files hold what was sent; so does
/// every file that was there before.
pub proof fn law_earlier_upload_is_never_overwritten(disk: DiskView, first: Upload, second: Upload)
    requires
        disk.valid(),
        disk.upload(first).2 is Finished,
        disk.upload(first).0.upload(second).2 is Finished,
    ensures
        ({
            let (between, dir_a, _) = disk.upload(first);
            let (after, dir_b, _) = between.upload(second);
            &&& dir_a != dir_b
            &&& after.files.contains_key((dir_a, sanitized(first.name)))
            &&& after.files[(dir_a, sanitized(first.name))] == first.data
            &&& after.files.contains_key((dir_b, sanitized(second.name)))
            &&& after.files[(dir_b, sanitized(second.name))] == second.data
            &&& forall|path: (Seq<char>, Seq<char>)| #[trigger]
                disk.files.contains_key(path) ==> after.files.contains_key(path)
                    && after.files[path] == disk.files[path]
        }),
{
    law_upload_claims_a_new_directory(disk, first);
    law_upload_claims_a_new_directory(disk.upload(first).0, second);
}

// ---------------------------------------------------------------------------
// Cleaning up
// ---------------------------------------------------------------------------

/// Something in a staging directory.
pub struct StagedEntry {
    pub path: String,
    /// When it was last modified, in nanoseconds, where that is known.
    pub modified: Option<i128>,
    pub is_dir: bool,
}

/// What is to be removed.
#[derive(Debug, PartialEq, Eq)]
pub enum Removal {
    /// A directory, with everything in it.
    Dir(String),
    /// A file.
    File(String),
}

/// The entry is known to be older than staged files may become.
pub open spec fn stale(entry: StagedEntry, now: i128) -> bool {
    entry.modified matches Some(modified) && now - modified > STAGED_CLIPBOARD_IMAGE_MAX_AGE
}

/// The removal takes away the entry, as what it is.
pub open spec fn removes(removal: Removal, entry: StagedEntry) -> bool {
    match removal {
        Removal::Dir(path) => entry.is_dir && path@ == entry.path@,
        Removal::File(path) => !entry.is_dir && path@ == entry.path@,
    }
}

/// What to remove from a staging directory at the time `now`: the stale entries, in
/// order, and nothing else.
pub fn cleanup_stale(entries: &[StagedEntry], now: i128) -> (r: Vec<Removal>)
    ensures
        ({
            let old_ones = entries@.filter(|e: StagedEntry| stale(e, now));
            &&& r@.len() == old_ones.len()
            &&& forall|i: int| 0 <= i < r@.len() ==> removes(#[trigger] r@[i], old_ones[i])
        }),
{
    let ghost test = |e: StagedEntry| stale(e, now);
    let mut out: Vec<Removal> = Vec::new();
    let mut i: usize = 0;
    assert(entries@.take(0) =~= Seq::<StagedEntry>::empty());
    proof {
        reveal(Seq::filter);
    }
    while i < entries.len()
        invariant
            i <= entries@.len(),
            test == (|e: StagedEntry| stale(e, now)),
            out@.len() == entries@.take(i as int).filter(test).len(),
            forall|j: int|
                0 <= j < out@.len() ==> removes(
                    #[trigger] out@[j],
                    entries@.take(i as int).filter(test)[j],
                ),
        decreases entries@.len() - i,
    {
        proof {
            reveal(Seq::filter);
            assert(entries@.take(i + 1).drop_last() =~= entries@.take(i as int));
            assert(entries@.take(i + 1).last() == entries@[i as int]);
        }
        let is_stale = match entries[i].modified {
            Some(modified) => now >= i128::MIN + STAGED_CLIPBOARD_IMAGE_MAX_AGE && modified < now
                - STAGED_CLIPBOARD_IMAGE_MAX_AGE,
            None => false,
        };
        if is_stale {
            if entries[i].is_dir {
                out.push(Removal::Dir(entries[i].path.clone()));
            } else {
                out.push(Removal::File(entries[i].path.clone()));
            }
        }
        i += 1;
    }
    assert(entries@.take(i as int) =~= entries@);
    out
}

// ---------------------------------------------------------------------------
// What a name keeps
// ---------------------------------------------------------------------------

/// Of a path only what stands behind the last separator, of either kind, counts: it is the
/// end of the path, holds no separator, and a separator stands right before it where
/// anything does.
pub proof fn law_last_component_is_behind_the_last_separator(s: Seq<char>)
    ensures
        ({
            let last = last_component(s);
            let start = s.len() - last.len();
            &&& 0 <= start
            &&& last == s.skip(start)
            &&& !last.contains('/')
            &&& !last.contains('\\')
            &&& start > 0 ==> s[start - 1] == '/' || s[start - 1] == '\\'
        }),
    decreases s.len(),
{
    lemma_last_component(s);
    if s.len() > 0 && !separator(s.last()) {
        let front = s.drop_last();
        law_last_component_is_behind_the_last_separator(front);
        let start = s.len() - last_component(s).len();
        if start > 0 {
            assert(front[start - 1] == s[start - 1]);
        }
    }
}

/// The directories in front of a name make no difference to the name that is staged.
pub proof fn law_directories_are_dropped(dir: Seq<char>, name: Seq<char>)
    ensures
        sanitized(dir.push('/') + name) == sanitized(name),
        sanitized(dir.push('\\') + name) == sanitized(name),
{
    lemma_component_behind(dir.push('/'), name);
    lemma_component_behind(dir.push('\\'), name);
}

proof fn lemma_component_behind(dir: Seq<char>, name: Seq<char>)
    requires
        dir.len() > 0,
        separator(dir.last()),
    ensures
        last_component(dir + name) == last_component(name),
    decreases name.len(),
{
    if name.len() == 0 {
        assert(dir + name =~= dir);
    } else {
        assert((dir + name).drop_last() =~= dir + name.drop_last());
        lemma_component_behind(dir, name.drop_last());
    }
}

/// Cleaning a name goes character by character. A character stays unless it is a control
/// character, whitespace or one of `<>:"|?*`, and an underscore stands in its place
/// otherwise; only of those seven the third in a row and every one behind it is dropped.
pub proof fn law_cleaning_goes_character_by_character(s: Seq<char>, c: char)
    ensures
        ({
            let seven = seq!['<', '>', ':', '"', '|', '?', '*'];
            let n = s.len() as int;
            &&& cleaned(Seq::<char>::empty()) == Seq::<char>::empty()
            &&& !control(c) && !whitespace(c) && !seven.contains(c) ==> cleaned(s.push(c))
                == cleaned(s).push(c)
            &&& (control(c) || whitespace(c)) ==> cleaned(s.push(c)) == cleaned(s).push('_')
            &&& seven.contains(c) && !(n >= 2 && seven.contains(s[n - 1]) && seven.contains(
                s[n - 2],
            )) ==> cleaned(s.push(c)) == cleaned(s).push('_')
            &&& seven.contains(c) && n >= 2 && seven.contains(s[n - 1]) && seven.contains(s[n - 2])
                ==> cleaned(s.push(c)) == cleaned(s)
        }),
{
    assert(s.push(c).drop_last() =~= s);
    lemma_seven(c);
    if s.len() >= 1 {
        lemma_seven(s[s.len() - 1]);
    }
    if s.len() >= 2 {
        lemma_seven(s[s.len() - 2]);
    }
}

proof fn lemma_seven(c: char)
    ensures
        reserved(c) == seq!['<', '>', ':', '"', '|', '?', '*'].contains(c),
        reserved(c) ==> !control(c) && !whitespace(c),
{
    let seven = seq!['<', '>', ':', '"', '|', '?', '*'];
    assert(seven[0] == '<' && seven[1] == '>' && seven[2] == ':' && seven[3] == '"' && seven[4]
        == '|' && seven[5] == '?' && seven[6] == '*');
    if seven.contains(c) {
        let k = choose|k: int| 0 <= k < seven.len() && seven[k] == c;
        assert(k == 0 || k == 1 || k == 2 || k == 3 || k == 4 || k == 5 || k == 6);
    }
}

/// Dots in front of a name are dropped, however many there are, and none elsewhere.
pub proof fn law_only_leading_dots_are_dropped(s: Seq<char>)
    ensures
        without_leading_dots(seq!['.'] + s) == without_leading_dots(s),
        s.len() == 0 || s[0] != '.' ==> without_leading_dots(s) == s,
{
    assert((seq!['.'] + s).skip(1) =~= s);
}

/// What is staged is the cleaned name without the dots in front of it, where that fits in
/// a hundred and twenty-eight bytes; where nothing is left of it, the name is `file`.
pub proof fn law_short_name_is_only_cleaned(name: Seq<char>)
    ensures
        ({
            let visible = without_leading_dots(cleaned(last_component(name)));
            &&& visible.len() == 0 ==> sanitized(name) == seq!['f', 'i', 'l', 'e']
            &&& visible.len() > 0 && byte_len(visible) <= 128 ==> sanitized(name) == visible
            &&& byte_len(visible) > 128 ==> byte_len(sanitized(name)) <= 128 && extension_of(
                visible,
            ).is_suffix_of(sanitized(name)) && sanitized(name).take(
                sanitized(name).len() - extension_of(visible).len(),
            ).is_prefix_of(visible)
        }),
{
    reveal_strlit("file");
    assert("file"@ =~= seq!['f', 'i', 'l', 'e']);
    let visible = without_leading_dots(cleaned(last_component(name)));
    if byte_len(visible) > 128 {
        law_truncation_keeps_the_extension(visible, 128);
        let extension = extension_of(visible);
        let count = sanitized(name).len() - extension.len();
        assert(sanitized(name) == visible.take(count) + extension);
        assert(sanitized(name).skip(count) =~= extension);
        assert(sanitized(name).take(count) =~= visible.take(count));
    }
}

/// The extension of a name is the last dot with everything behind it, as long as that
/// takes no more than sixteen bytes; a name without a dot has none.
pub proof fn law_extension_begins_at_the_last_dot(stem: Seq<char>, ending: Seq<char>)
    requires
        !ending.contains('.'),
    ensures
        byte_len(seq!['.'] + ending) <= 16 ==> extension_of(stem.push('.') + ending) == seq!['.']
            + ending,
        byte_len(seq!['.'] + ending) > 16 ==> extension_of(stem.push('.') + ending) == Seq::<
            char,
        >::empty(),
        extension_of(ending) == Seq::<char>::empty(),
{
    lemma_dot_and_ending(stem, ending);
}

proof fn lemma_dot_and_ending(stem: Seq<char>, ending: Seq<char>)
    requires
        !ending.contains('.'),
    ensures
        from_last_dot(stem.push('.') + ending) == seq!['.'] + ending,
        from_last_dot(ending) == Seq::<char>::empty(),
    decreases ending.len(),
{
    let name = stem.push('.') + ending;
    if ending.len() == 0 {
        assert(name =~= stem.push('.'));
        assert(seq!['.'] + ending =~= seq!['.']);
    } else {
        let front = ending.drop_last();
        assert forall|k: int| 0 <= k < front.len() implies front[k] != '.' by {
            assert(ending[k] == front[k]);
        }
        assert(ending[ending.len() - 1] != '.');
        lemma_dot_and_ending(stem, front);
        assert(name.drop_last() =~= stem.push('.') + front);
        assert((seq!['.'] + front).push(ending.last()) =~= seq!['.'] + ending);
    }
}

/// An image keeps the extension that it came with, in small letters, where it is a known
/// one, with `jpg` for `jpeg`; the case does not matter, and anything else becomes `png`.
pub proof fn law_known_extensions_are_kept(extension: Seq<char>, other: Seq<char>)
    ensures
        eq_ignore_case(extension, other) ==> known_extension(extension) == known_extension(other),
        known_extension("jpg"@) == "jpg"@,
        known_extension("jpeg"@) == "jpg"@,
        known_extension("gif"@) == "gif"@,
        known_extension("webp"@) == "webp"@,
        known_extension("bmp"@) == "bmp"@,
        !eq_ignore_case(extension, "jpg"@) && !eq_ignore_case(extension, "jpeg"@)
            && !eq_ignore_case(extension, "gif"@) && !eq_ignore_case(extension, "webp"@)
            && !eq_ignore_case(extension, "bmp"@) ==> known_extension(extension) == "png"@,
{
    reveal_strlit("jpg");
    reveal_strlit("jpeg");
    reveal_strlit("gif");
    reveal_strlit("webp");
    reveal_strlit("bmp");
    law_case_is_all_that_is_ignored("gif"@, "jpg"@);
    law_case_is_all_that_is_ignored("gif"@, "jpeg"@);
    law_case_is_all_that_is_ignored("webp"@, "jpg"@);
    law_case_is_all_that_is_ignored("webp"@, "jpeg"@);
    law_case_is_all_that_is_ignored("webp"@, "gif"@);
    law_case_is_all_that_is_ignored("bmp"@, "jpg"@);
    law_case_is_all_that_is_ignored("bmp"@, "jpeg"@);
    law_case_is_all_that_is_ignored("bmp"@, "gif"@);
    law_case_is_all_that_is_ignored("bmp"@, "webp"@);
    assert("gif"@[0] == 'g' && "jpg"@[0] == 'j' && "webp"@[0] == 'w' && "bmp"@[0] == 'b'
        && "jpeg"@[0] == 'j');
}

/// Each user has a staging directory of their own, called after the kind and the user.
pub proof fn law_users_do_not_share_a_directory(prefix: Seq<char>, a: u32, b: u32)
    ensures
        user_dir(prefix, a) == user_dir(prefix, b) ==> a == b,
        prefix.is_prefix_of(user_dir(prefix, a)),
        user_dir(prefix, a)[prefix.len() as int] == '-',
        user_dir(prefix, a).skip(prefix.len() as int + 1) == decimal(a as nat),
{
    assert(user_dir(prefix, a).take(prefix.len() as int) =~= prefix);
    assert(user_dir(prefix, a).skip(prefix.len() as int + 1) =~= decimal(a as nat));
    assert(user_dir(prefix, b).skip(prefix.len() as int + 1) =~= decimal(b as nat));
    if user_dir(prefix, a) == user_dir(prefix, b) {
        lemma_radix_injective(a as nat, b as nat, 10);
    }
}

/// A staging goes on with the same thing to stage throughout, and asks for the next name
/// only where one is taken, up to a hundred of them.
pub proof fn law_staging_keeps_what_it_stages(staging: StagingView, event: StageEvent)
    ensures
        ({
            let (after, action) = staging.step(event);
            &&& after.client_id == staging.client_id
            &&& after.unique == staging.unique
            &&& after.kind == staging.kind
            &&& after.attempt == staging.attempt || (event == StageEvent::Exists && after.attempt
                == staging.attempt + 1)
            &&& staging.phase == StagePhase::Claiming && event == StageEvent::Exists ==> {
                &&& staging.attempt < 99 ==> after.attempt == staging.attempt + 1 && after.phase
                    == StagePhase::Claiming && action == after.claim()
                &&& staging.attempt >= 99 ==> after.phase == StagePhase::Over && action is GiveUp
            }
        }),
{
}

/// An image is written to a file that was just created under the image's own name, and a
/// file into a directory that was just created and made private; and staging has succeeded
/// only when the data was written.
pub proof fn law_data_is_written_to_what_was_claimed(staging: StagingView, event: StageEvent)
    ensures
        ({
            let (after, action) = staging.step(event);
            &&& action is Finished <==> staging.phase == StagePhase::Writing && event
                == StageEvent::Done
            &&& action is Write <==> staging.phase == StagePhase::Claiming && event
                == StageEvent::Done && staging.kind is Image
            &&& action is RestrictDir <==> staging.phase == StagePhase::Claiming && event
                == StageEvent::Done && staging.kind is File
            &&& action is WriteFileInDir <==> staging.phase == StagePhase::Restricting && event
                == StageEvent::Done && staging.kind is File
            &&& action matches StageActionView::WriteFileInDir(name) ==> staging.kind
                == StageKind::File(name)
            &&& action matches StageActionView::CreateFile(name) ==> (
            staging.kind matches StageKind::Image(extension) && name == image_text(
                staging.client_id,
                staging.unique,
                after.attempt,
                extension,
            ))
            &&& action matches StageActionView::CreateDir(name) ==> staging.kind is File && name
                == upload_dir_text(staging.client_id, staging.unique, after.attempt)
            &&& action is RemoveDir <==> staging.phase == StagePhase::Writing && event
                != StageEvent::Done && staging.kind is File
            &&& event == StageEvent::Failed ==> action is Fail || action is RemoveDir
            &&& action is Finished || action is Fail || action is RemoveDir || action is GiveUp
                <==> after.phase == StagePhase::Over
        }),
{
}

/// An entry is stale exactly if it is known to be older than a day, and it is removed as
/// what it is.
pub proof fn law_entries_stay_for_a_day(entry: StagedEntry, now: i128, removal: Removal)
    ensures
        stale(entry, now) <==> (entry.modified matches Some(modified) && now - modified
            > 86_400_000_000_000),
        removes(removal, entry) ==> (removal is Dir <==> entry.is_dir),
        removal matches Removal::Dir(path) ==> (removes(removal, entry) ==> path@ == entry.path@),
        removal matches Removal::File(path) ==> (removes(removal, entry) ==> path@ == entry.path@),
{
}

/// A name is claimed only while one is being claimed, and a staging that is over does
/// nothing more.
pub proof fn law_names_are_claimed_first(staging: StagingView, event: StageEvent)
    ensures
        ({
            let (after, action) = staging.step(event);
            &&& action is CreateFile || action is CreateDir ==> staging.phase
                == StagePhase::Claiming && (event == StageEvent::Begin || event
                == StageEvent::Exists)
            &&& staging.phase == StagePhase::Claiming && event == StageEvent::Begin ==> after
                == staging && (action is CreateFile <==> staging.kind is Image) && (
            action is CreateDir <==> staging.kind is File)
            &&& staging.phase == StagePhase::Over ==> action is Fail && after.phase
                == StagePhase::Over
            &&& staging.phase == StagePhase::Restricting && event != StageEvent::Done
                ==> action is Fail
            &&& staging.phase == StagePhase::Writing && event != StageEvent::Done
                && staging.kind is Image ==> action is Fail
        }),
{
}

/// Whatever the limit, a name that does not fit keeps its extension and as much of what
/// stands before it as fits beside it; where not even the extension fits, nothing more.
pub proof fn law_truncation_keeps_as_much_as_fits(name: Seq<char>, max: nat)
    ensures
        byte_len(name) <= max ==> truncated(name, max) == name,
        byte_len(name) > max ==> {
            let extension = extension_of(name);
            let stem = name.len() - extension.len();
            let budget = if byte_len(extension) <= max {
                max - byte_len(extension)
            } else {
                0
            };
            let count = truncated(name, max).len() - extension.len();
            &&& 0 <= count <= stem
            &&& truncated(name, max) == name.take(count) + extension
            &&& byte_len(name.take(count)) <= budget
            &&& count < stem ==> byte_len(name.take(count + 1)) > budget
        },
{
    if byte_len(name) > max {
        let extension = extension_of(name);
        lemma_from_last_dot(name);
        let stem = name.take(name.len() - extension.len());
        let limit = less(max, byte_len(extension));
        lemma_longest_prefix(stem, limit);
        let kept = longest_prefix(stem, limit);
        let count = kept.len() as int;
        assert(kept =~= name.take(count));
        if count < stem.len() {
            if byte_len(stem) <= limit {
                assert(longest_prefix(stem, limit) == stem);
            } else {
                lemma_longest_prefix_is_maximal(stem, limit);
                assert(stem.take(count + 1) =~= name.take(count + 1));
            }
        }
    }
}

} // verus!
