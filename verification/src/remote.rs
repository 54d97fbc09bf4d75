//! Reaching a tanuki server on another machine: the `--cloud` flag, and the hints
//! printed when an SSH connection is refused.

use vstd::prelude::*;
use crate::text::ascii_alphanumeric;
use crate::text::chars_of;
use crate::text::contains;
use crate::text::copy_of;
use crate::text::has_substring;
use crate::text::is_ascii_alphanumeric;
use crate::text::law_substring_is_surrounded;
use crate::text::opt_text;
use crate::text::same_text;
use crate::text::slice_chars;
use crate::text::starts_with;
use crate::text::string_of;
use crate::text::texts;

pub mod batch;
pub mod duplex;
pub mod host;
pub mod legion;
pub mod reconnect;
pub mod replay;
pub mod viewer;
pub mod webrtc_p2p;
pub mod wire;

verus! {

// ---------------------------------------------------------------------------
// The `--cloud` flag
// ---------------------------------------------------------------------------

/// What `--cloud` may not be given, and what is answered then; nothing for a good target.
pub open spec fn target_complaint(target: Seq<char>) -> Option<Seq<char>> {
    if target.len() == 0 {
        Some("missing value for --cloud"@)
    } else if target[0] == '-' {
        Some("--cloud target must not start with '-'"@)
    } else {
        None
    }
}

/// Gives a good target back, and says what is wrong with any other.
pub fn validate_cloud_target(target: &str) -> (r: Result<&str, String>)
    ensures
        match r {
            Ok(t) => t@ == target@ && target_complaint(target@) is None,
            Err(message) => target_complaint(target@) == Some(message@),
        },
{
    let chars = chars_of(target);
    if chars.len() == 0 {
        return Err(copy_of("missing value for --cloud"));
    }
    if chars[0] == '-' {
        return Err(copy_of("--cloud target must not start with '-'"));
    }
    Ok(target)
}

/// What is left of the command line, and the target it named; or the complaint.
pub type Extracted = Result<(Seq<Seq<char>>, Option<Seq<char>>), Seq<char>>;

/// `r` with `kept` in front of what is left of the command line.
pub open spec fn keeping(kept: Seq<Seq<char>>, r: Extracted) -> Extracted {
    match r {
        Ok((rest, target)) => Ok((kept + rest, target)),
        Err(message) => Err(message),
    }
}

/// A second target, or one that is no good, is a complaint; otherwise `rest` is looked
/// through with the target in hand.
pub open spec fn with_target(
    seen: Option<Seq<char>>,
    value: Seq<char>,
    rest: Extracted,
) -> Extracted {
    if seen is Some {
        Err("--cloud can only be specified once"@)
    } else {
        match target_complaint(value) {
            Some(message) => Err(message),
            None => rest,
        }
    }
}

/// Looks through `args` from the left: takes `--cloud <target>` and `--cloud=<target>`
/// out, keeps every other argument, and stops looking at `--`.
pub open spec fn scan_cloud_args(args: Seq<Seq<char>>, seen: Option<Seq<char>>) -> Extracted
    decreases args.len(),
{
    if args.len() == 0 {
        Ok((Seq::empty(), seen))
    } else if args[0] == "--"@ {
        Ok((args, seen))
    } else if args[0] == "--cloud"@ {
        if seen is Some {
            Err("--cloud can only be specified once"@)
        } else if args.len() == 1 {
            Err("missing value for --cloud"@)
        } else {
            with_target(seen, args[1], scan_cloud_args(args.skip(2), Some(args[1])))
        }
    } else if "--cloud="@.is_prefix_of(args[0]) {
        let value = args[0].skip(8);
        with_target(seen, value, scan_cloud_args(args.skip(1), Some(value)))
    } else {
        keeping(seq![args[0]], scan_cloud_args(args.skip(1), seen))
    }
}

/// The command line without its `--cloud` flag, and the target that the flag named. The
/// first argument is the program and is kept as it is.
pub open spec fn cloud_args(args: Seq<Seq<char>>) -> Extracted {
    if args.len() == 0 {
        Ok((Seq::empty(), None))
    } else {
        keeping(seq![args[0]], scan_cloud_args(args.skip(1), None))
    }
}

/// Takes the `--cloud` flag out of a command line and returns what is left with the
/// target that the flag named.
pub fn extract_cloud_args(args: &[String]) -> (r: Result<(Vec<String>, Option<String>), String>)
    ensures
        match r {
            Ok((cleaned, target)) => cloud_args(texts(args@)) == Ok::<_, Seq<char>>(
                (
                    texts(cleaned@),
                    opt_text(target),
                ),
            ),
            Err(message) => cloud_args(texts(args@)) == Err::<
                (Seq<Seq<char>>, Option<Seq<char>>),
                _,
            >(message@),
        },
{
    let ghost all = texts(args@);
    let mut cleaned: Vec<String> = Vec::new();
    if args.len() == 0 {
        assert(texts(cleaned@) =~= Seq::<Seq<char>>::empty());
        return Ok((cleaned, None));
    }
    cleaned.push(args[0].clone());
    let mut target: Option<String> = None;
    let mut index: usize = 1;
    proof {
        reveal_strlit("--cloud=");
        assert(texts(cleaned@) =~= seq![all[0]]);
    }
    while index < args.len()
        invariant
            1 <= index <= args@.len(),
            all == texts(args@),
            "--cloud="@.len() == 8,
            cloud_args(all) == keeping(
                texts(cleaned@),
                scan_cloud_args(
                    all.skip(index as int),
                    opt_text(target),
                ),
            ),
        ensures
            cloud_args(all) == Ok::<_, Seq<char>>(
                (
                    texts(cleaned@),
                    opt_text(target),
                ),
            ),
        decreases args@.len() - index,
    {
        let ghost rest = all.skip(index as int);
        let ghost kept = texts(cleaned@);
        let ghost seen = opt_text(target);
        let arg = args[index].as_str();
        proof {
            assert(rest[0] == arg@);
            assert(rest.skip(1) =~= all.skip(index + 1));
            if rest.len() >= 2 {
                assert(rest.skip(2) =~= all.skip(index + 2));
            }
        }
        if same_text(arg, "--") {
            let ghost before = kept;
            while index < args.len()
                invariant
                    index <= args@.len(),
                    all == texts(args@),
                    before + rest == texts(cleaned@) + all.skip(index as int),
                decreases args@.len() - index,
            {
                let ghost so_far = texts(cleaned@);
                cleaned.push(args[index].clone());
                assert(texts(cleaned@) =~= so_far.push(all[index as int]));
                assert(so_far + all.skip(index as int) =~= texts(cleaned@) + all.skip(index + 1));
                index += 1;
            }
            assert(texts(cleaned@) + all.skip(index as int) =~= texts(cleaned@));
            break ;
        }
        if same_text(arg, "--cloud") {
            if target.is_some() {
                return Err(copy_of("--cloud can only be specified once"));
            }
            if index + 1 >= args.len() {
                return Err(copy_of("missing value for --cloud"));
            }
            match validate_cloud_target(args[index + 1].as_str()) {
                Ok(value) => {
                    target = Some(copy_of(value));
                },
                Err(message) => {
                    return Err(message);
                },
            }
            index += 2;
            continue ;
        }
        if starts_with(arg, "--cloud=") {
            if target.is_some() {
                return Err(copy_of("--cloud can only be specified once"));
            }
            let chars = chars_of(arg);
            let value = string_of(&slice_chars(&chars, 8, chars.len()));
            match validate_cloud_target(value.as_str()) {
                Ok(_) => {},
                Err(message) => {
                    return Err(message);
                },
            }
            target = Some(value);
            index += 1;
            continue ;
        }
        cleaned.push(args[index].clone());
        proof {
            assert(texts(cleaned@) =~= kept.push(arg@));
            let tail = scan_cloud_args(rest.skip(1), seen);
            assert(keeping(kept, keeping(seq![arg@], tail)) == keeping(kept.push(arg@), tail)) by {
                if let Ok((cs, t)) = tail {
                    assert(kept + (seq![arg@] + cs) =~= kept.push(arg@) + cs);
                }
            }
        }
        index += 1;
    }
    Ok((cleaned, target))
}

/// `arg` is one of the two forms of the flag.
pub open spec fn is_cloud_flag(arg: Seq<char>) -> bool {
    arg == "--cloud"@ || "--cloud="@.is_prefix_of(arg)
}

proof fn lemma_scan_result(args: Seq<Seq<char>>, seen: Option<Seq<char>>)
    ensures
        scan_cloud_args(args, seen) matches Ok((cleaned, target)) ==> {
            &&& scan_cloud_args(cleaned, None) == Ok::<_, Seq<char>>((cleaned, None::<Seq<char>>))
            &&& seen is Some ==> target == seen
            &&& target matches Some(t) ==> seen is Some || target_complaint(t) is None
        },
    decreases args.len(),
{
    if args.len() == 0 {
    } else if args[0] == "--"@ {
    } else if args[0] == "--cloud"@ {
        if args.len() >= 2 {
            lemma_scan_result(args.skip(2), Some(args[1]));
        }
    } else if "--cloud="@.is_prefix_of(args[0]) {
        lemma_scan_result(args.skip(1), Some(args[0].skip(8)));
    } else {
        lemma_scan_result(args.skip(1), seen);
        if let Ok((rest, target)) = scan_cloud_args(args.skip(1), seen) {
            let cleaned = seq![args[0]] + rest;
            assert(cleaned.skip(1) =~= rest);
        }
    }
}

/// Extracting the flag is final: what is left of a command line holds no `--cloud`
/// that extracting again would take out.
pub proof fn law_extracting_twice_changes_nothing(args: Seq<Seq<char>>)
    ensures
        cloud_args(args) matches Ok((cleaned, _)) ==> cloud_args(cleaned) == Ok::<_, Seq<char>>(
            (cleaned, None::<Seq<char>>),
        ),
{
    if args.len() > 0 {
        lemma_scan_result(args.skip(1), None);
        if let Ok((rest, _)) = scan_cloud_args(args.skip(1), None) {
            let cleaned = seq![args[0]] + rest;
            assert(cleaned.skip(1) =~= rest);
        }
    }
}

/// A target that comes out is neither empty nor begins with a dash.
pub proof fn law_extracted_target_is_valid(args: Seq<Seq<char>>)
    ensures
        cloud_args(args) matches Ok((_, Some(target))) ==> target.len() > 0 && target[0] != '-',
{
    if args.len() > 0 {
        lemma_scan_result(args.skip(1), None);
    }
}

/// A command line without the flag passes through unchanged.
pub proof fn law_command_line_without_flag_is_kept(args: Seq<Seq<char>>)
    requires
        forall|i: int| 1 <= i < args.len() ==> !is_cloud_flag(#[trigger] args[i]),
    ensures
        cloud_args(args) == Ok::<_, Seq<char>>((args, None::<Seq<char>>)),
{
    if args.len() > 0 {
        lemma_scan_plain(args.skip(1));
        assert(seq![args[0]] + args.skip(1) =~= args);
    } else {
        assert(args =~= Seq::<Seq<char>>::empty());
    }
}

proof fn lemma_scan_plain(args: Seq<Seq<char>>)
    requires
        forall|i: int| 0 <= i < args.len() ==> !is_cloud_flag(#[trigger] args[i]),
    ensures
        scan_cloud_args(args, None) == Ok::<_, Seq<char>>((args, None::<Seq<char>>)),
    decreases args.len(),
{
    if args.len() == 0 {
        assert(args =~= Seq::<Seq<char>>::empty());
    } else {
        assert(!is_cloud_flag(args[0]));
        assert forall|i: int| 0 <= i < args.skip(1).len() implies !is_cloud_flag(
            #[trigger] args.skip(1)[i],
        ) by {
            assert(args.skip(1)[i] == args[i + 1]);
        }
        lemma_scan_plain(args.skip(1));
        assert(seq![args[0]] + args.skip(1) =~= args);
    }
}

/// Arguments from `--` on are not looked at: whatever the command line in front of `--`
/// comes to, they follow it as they are.
pub proof fn law_arguments_after_double_dash_are_kept(
    program: Seq<char>,
    before: Seq<Seq<char>>,
    after: Seq<Seq<char>>,
)
    ensures
        cloud_args(seq![program] + before) matches Ok((cleaned, target)) ==> cloud_args(
            seq![program] + before + (seq!["--"@] + after),
        ) == Ok::<_, Seq<char>>((cleaned + (seq!["--"@] + after), target)),
{
    let rest = seq!["--"@] + after;
    let front = seq![program] + before;
    let args = front + rest;
    assert(front.skip(1) =~= before);
    assert(args.skip(1) =~= before + rest);
    assert(args[0] == program && front[0] == program);
    lemma_scan_before_dashes(before, rest, None);
    if let Ok((kept, target)) = scan_cloud_args(before, None) {
        assert(seq![program] + (kept + rest) =~= seq![program] + kept + rest);
    }
}

proof fn lemma_scan_before_dashes(
    before: Seq<Seq<char>>,
    rest: Seq<Seq<char>>,
    seen: Option<Seq<char>>,
)
    requires
        rest.len() > 0,
        rest[0] == "--"@,
    ensures
        scan_cloud_args(before, seen) matches Ok((kept, target)) ==> scan_cloud_args(
            before + rest,
            seen,
        ) == Ok::<_, Seq<char>>((kept + rest, target)),
    decreases before.len(),
{
    let all = before + rest;
    if before.len() == 0 {
        assert(all =~= rest);
        assert(Seq::<Seq<char>>::empty() + rest =~= rest);
    } else {
        assert(all[0] == before[0]);
        assert(all.skip(1) =~= before.skip(1) + rest);
        if before[0] == "--"@ {
        } else if before[0] == "--cloud"@ {
            if before.len() >= 2 {
                assert(all[1] == before[1]);
                assert(all.skip(2) =~= before.skip(2) + rest);
                lemma_scan_before_dashes(before.skip(2), rest, Some(before[1]));
            }
        } else if "--cloud="@.is_prefix_of(before[0]) {
            lemma_scan_before_dashes(before.skip(1), rest, Some(before[0].skip(8)));
        } else {
            lemma_scan_before_dashes(before.skip(1), rest, seen);
            if let Ok((kept, target)) = scan_cloud_args(before.skip(1), seen) {
                assert(seq![before[0]] + (kept + rest) =~= seq![before[0]] + kept + rest);
            }
        }
    }
}

// ---------------------------------------------------------------------------
// Hints for refused SSH connections
// ---------------------------------------------------------------------------

/// `message` is what SSH says when it refuses the credentials.
pub open spec fn auth_error(message: Seq<char>) -> bool {
    has_substring(message, "Permission denied"@) && (has_substring(message, "(publickey"@)
        || has_substring(message, "(keyboard-interactive"@) || has_substring(
        message,
        "(password"@,
    ))
}

/// Whether an error with this message is a refusal of the credentials.
pub fn is_remote_auth_error(message: &str) -> (r: bool)
    ensures
        r == auth_error(message@),
{
    contains(message, "Permission denied") && (contains(message, "(publickey") || contains(
        message,
        "(keyboard-interactive",
    ) || contains(message, "(password"))
}

/// The lines to print when reaching `target` failed with `message`.
pub fn remote_error_hint(message: &str, target: &str) -> (r: Vec<String>)
    ensures
        texts(r@) == if auth_error(message@) {
            seq![
                "hint: verify SSH access first with `"@ + ("ssh "@ + shell_quoted(target@)) + "`."@,
                "hint: if your SSH key has a passphrase, load it into ssh-agent with `ssh-add` before running `tanuki --remote`."@,
            ]
        } else {
            Seq::empty()
        },
{
    let mut lines: Vec<String> = Vec::new();
    if is_remote_auth_error(message) {
        let mut first = copy_of("hint: verify SSH access first with `");
        first.push_str(ssh_check_command(target).as_str());
        first.push_str("`.");
        lines.push(first);
        lines.push(
            copy_of(
                "hint: if your SSH key has a passphrase, load it into ssh-agent with `ssh-add` before running `tanuki --remote`.",
            ),
        );
    }
    assert(texts(lines@) =~= if auth_error(message@) {
        seq![
            "hint: verify SSH access first with `"@ + ("ssh "@ + shell_quoted(target@)) + "`."@,
            "hint: if your SSH key has a passphrase, load it into ssh-agent with `ssh-add` before running `tanuki --remote`."@,
        ]
    } else {
        Seq::empty()
    });
    lines
}

/// The command that checks the SSH access to `target`.
pub fn ssh_check_command(target: &str) -> (r: String)
    ensures
        r@ == "ssh "@ + shell_quoted(target@),
{
    let mut out = copy_of("ssh ");
    out.push_str(shell_quote(target).as_str());
    out
}

/// A character that a shell takes as it stands.
pub open spec fn shell_plain(c: char) -> bool {
    ascii_alphanumeric(c) || c == '@' || c == '%' || c == '_' || c == '+' || c == '=' || c == ':'
        || c == ',' || c == '.' || c == '/' || c == '-'
}

fn is_shell_plain(c: char) -> (r: bool)
    ensures
        r == shell_plain(c),
{
    is_ascii_alphanumeric(c) || c == '@' || c == '%' || c == '_' || c == '+' || c == '=' || c == ':'
        || c == ',' || c == '.' || c == '/' || c == '-'
}

/// `c` inside single quotes: a quote ends them, stands escaped, and opens them again.
pub open spec fn quoted_char(c: char) -> Seq<char> {
    if c == '\'' {
        seq!['\'', '\\', '\'', '\'']
    } else {
        seq![c]
    }
}

/// `s` inside single quotes.
pub open spec fn quoted_body(s: Seq<char>) -> Seq<char>
    decreases s.len(),
{
    if s.len() == 0 {
        Seq::empty()
    } else {
        quoted_char(s[0]) + quoted_body(s.drop_first())
    }
}

/// `s` as one word of a shell command line.
pub open spec fn shell_quoted(s: Seq<char>) -> Seq<char> {
    if s.len() > 0 && s.all(|c: char| shell_plain(c)) {
        s
    } else {
        seq!['\''] + quoted_body(s) + seq!['\'']
    }
}

/// `value` as one word of a shell command line.
pub fn shell_quote(value: &str) -> (r: String)
    ensures
        r@ == shell_quoted(value@),
{
    let chars = chars_of(value);
    let mut plain: bool = chars.len() > 0;
    let mut i: usize = 0;
    while i < chars.len()
        invariant
            chars@ == value@,
            i <= chars@.len(),
            plain == (chars@.len() > 0 && forall|j: int|
                0 <= j < i ==> shell_plain(#[trigger] chars@[j])),
        decreases chars@.len() - i,
    {
        if !is_shell_plain(chars[i]) {
            plain = false;
        }
        i += 1;
    }
    if plain {
        assert(value@.all(|c: char| shell_plain(c)));
        return copy_of(value);
    }
    let mut out = String::new();
    out.push('\'');
    let mut k: usize = 0;
    assert(chars@.skip(0) =~= chars@);
    assert(out@ + quoted_body(chars@) =~= seq!['\''] + quoted_body(chars@));
    while k < chars.len()
        invariant
            chars@ == value@,
            k <= chars@.len(),
            out@ + quoted_body(chars@.skip(k as int)) == seq!['\''] + quoted_body(chars@),
        decreases chars@.len() - k,
    {
        let ghost before = out@;
        let c = chars[k];
        assert(chars@.skip(k as int).drop_first() =~= chars@.skip(k + 1));
        if c == '\'' {
            out.push('\'');
            out.push('\\');
            out.push('\'');
            out.push('\'');
        } else {
            out.push(c);
        }
        assert(out@ =~= before + quoted_char(c));
        assert(before + (quoted_char(c) + quoted_body(chars@.skip(k + 1))) =~= out@ + quoted_body(
            chars@.skip(k + 1),
        ));
        k += 1;
    }
    assert(out@ + quoted_body(chars@.skip(k as int)) =~= out@);
    out.push('\'');
    assert(out@ =~= seq!['\''] + quoted_body(chars@) + seq!['\'']);
    proof {
        if value@.len() > 0 && value@.all(|c: char| shell_plain(c)) {
            assert forall|j: int| 0 <= j < chars@.len() implies shell_plain(#[trigger] chars@[j]) by {
                assert((|c: char| shell_plain(c))(value@[j]));
            }
        }
    }
    out
}

/// What a POSIX shell makes of `s` as one word, where `s` consists of plain characters,
/// escaped characters and single-quoted runs; `quoted` says whether `s` begins inside
/// quotes. Nothing where `s` is not such a word.
pub open spec fn shell_word(s: Seq<char>, quoted: bool) -> Option<Seq<char>>
    decreases s.len(),
{
    if s.len() == 0 {
        if quoted {
            None
        } else {
            Some(Seq::empty())
        }
    } else if s[0] == '\'' {
        shell_word(s.drop_first(), !quoted)
    } else if quoted || shell_plain(s[0]) {
        match shell_word(s.drop_first(), quoted) {
            Some(rest) => Some(seq![s[0]] + rest),
            None => None,
        }
    } else if s[0] == '\\' && s.len() >= 2 {
        match shell_word(s.skip(2), false) {
            Some(rest) => Some(seq![s[1]] + rest),
            None => None,
        }
    } else {
        None
    }
}

proof fn lemma_plain_word(s: Seq<char>)
    requires
        forall|i: int| 0 <= i < s.len() ==> shell_plain(#[trigger] s[i]),
    ensures
        shell_word(s, false) == Some(s),
    decreases s.len(),
{
    if s.len() > 0 {
        assert(shell_plain(s[0]));
        assert forall|i: int| 0 <= i < s.drop_first().len() implies shell_plain(
            #[trigger] s.drop_first()[i],
        ) by {
            assert(s.drop_first()[i] == s[i + 1]);
        }
        lemma_plain_word(s.drop_first());
        assert(seq![s[0]] + s.drop_first() =~= s);
    } else {
        assert(s =~= Seq::<char>::empty());
    }
}

proof fn lemma_quoted_word(s: Seq<char>)
    ensures
        shell_word(quoted_body(s) + seq!['\''], true) == Some(s),
    decreases s.len(),
{
    let word = quoted_body(s) + seq!['\''];
    if s.len() == 0 {
        assert(word =~= seq!['\'']);
        assert(word.drop_first() =~= Seq::<char>::empty());
        assert(s =~= Seq::<char>::empty());
        reveal_with_fuel(shell_word, 2);
    } else {
        let rest = quoted_body(s.drop_first()) + seq!['\''];
        lemma_quoted_word(s.drop_first());
        assert(word =~= quoted_char(s[0]) + rest);
        assert(seq![s[0]] + s.drop_first() =~= s);
        if s[0] == '\'' {
            let w1 = word.drop_first();
            assert(w1[0] == '\\' && w1[1] == '\'');
            let w2 = w1.skip(2);
            assert(w2[0] == '\'');
            assert(w2.drop_first() =~= rest);
            assert(shell_word(w2, false) == shell_word(rest, true));
            assert(shell_word(w1, false) == Some(seq!['\''] + s.drop_first()));
            assert(shell_word(word, true) == shell_word(w1, false));
        } else {
            assert(word.drop_first() =~= rest);
        }
    }
}

/// Quoting is undone by the shell: whatever the value, the quoted text is one word, and
/// the shell reads the value back from it.
pub proof fn law_shell_reads_back_what_was_quoted(value: Seq<char>)
    ensures
        shell_word(shell_quoted(value), false) == Some(value),
{
    if value.len() > 0 && value.all(|c: char| shell_plain(c)) {
        assert forall|j: int| 0 <= j < value.len() implies shell_plain(#[trigger] value[j]) by {
            assert((|c: char| shell_plain(c))(value[j]));
        }
        lemma_plain_word(value);
    } else {
        lemma_quoted_word(value);
        let word = seq!['\''] + quoted_body(value) + seq!['\''];
        assert(word.drop_first() =~= quoted_body(value) + seq!['\'']);
        assert(shell_word(word, false) == shell_word(word.drop_first(), true));
    }
}

// ---------------------------------------------------------------------------
// What the flag and the quotes are for
// ---------------------------------------------------------------------------

/// The flag names the target: of a command line that holds it once, in either form, what
/// is left is every other argument in its order, and the target is the one given.
pub proof fn law_flag_names_the_target(
    program: Seq<char>,
    before: Seq<Seq<char>>,
    target: Seq<char>,
    after: Seq<Seq<char>>,
)
    requires
        forall|i: int|
            0 <= i < before.len() ==> !is_cloud_flag(#[trigger] before[i]) && before[i] != "--"@,
        forall|i: int| 0 <= i < after.len() ==> !is_cloud_flag(#[trigger] after[i]),
        target.len() > 0,
        target[0] != '-',
    ensures
        cloud_args(seq![program] + before + (seq!["--cloud"@, target] + after)) == Ok::<
            _,
            Seq<char>,
        >((seq![program] + before + after, Some(target))),
        cloud_args(seq![program] + before + (seq!["--cloud="@ + target] + after)) == Ok::<
            _,
            Seq<char>,
        >((seq![program] + before + after, Some(target))),
{
    reveal_strlit("--");
    reveal_strlit("--cloud");
    reveal_strlit("--cloud=");
    let apart = seq!["--cloud"@, target] + after;
    let joined = seq!["--cloud="@ + target] + after;
    assert((seq![program] + before + apart).skip(1) =~= before + apart);
    assert((seq![program] + before + joined).skip(1) =~= before + joined);
    lemma_scan_plain_seen(after, Some(target));
    lemma_scan_behind_plain(before, apart, None);
    lemma_scan_behind_plain(before, joined, None);
    assert(apart[0] == "--cloud"@ && apart[1] == target);
    assert("--cloud"@ != "--"@) by {
        assert("--cloud"@.len() != "--"@.len());
    }
    assert(apart.skip(2) =~= after);
    let arg = "--cloud="@ + target;
    assert(joined[0] == arg);
    assert(arg.len() > 8);
    assert(arg != "--"@ && arg != "--cloud"@) by {
        assert(arg.len() != "--"@.len() && arg.len() != "--cloud"@.len());
    }
    assert("--cloud="@ =~= arg.take(8));
    assert(arg.skip(8) =~= target);
    assert(joined.skip(1) =~= after);
    assert(seq![program] + (before + after) =~= seq![program] + before + after);
}

/// A flag without a good target is refused, and so is a second flag.
pub proof fn law_bad_flags_are_refused(
    program: Seq<char>,
    before: Seq<Seq<char>>,
    target: Seq<char>,
    rest: Seq<Seq<char>>,
)
    requires
        forall|i: int|
            0 <= i < before.len() ==> !is_cloud_flag(#[trigger] before[i]) && before[i] != "--"@,
    ensures
        target.len() == 0 || target[0] == '-' ==> cloud_args(
            seq![program] + before + (seq!["--cloud"@, target] + rest),
        ) is Err,
        target.len() == 0 || target[0] == '-' ==> cloud_args(
            seq![program] + before + (seq!["--cloud="@ + target] + rest),
        ) is Err,
        cloud_args(seq![program] + before + seq!["--cloud"@]) is Err,
        cloud_args(
            seq![program] + before + (seq!["--cloud"@, target] + (seq!["--cloud"@] + rest)),
        ) is Err,
{
    reveal_strlit("--");
    reveal_strlit("--cloud");
    reveal_strlit("--cloud=");
    assert("--cloud"@.len() != "--"@.len());
    let apart = seq!["--cloud"@, target] + rest;
    let arg = "--cloud="@ + target;
    let joined = seq![arg] + rest;
    let bare = seq!["--cloud"@];
    let again = seq!["--cloud"@] + rest;
    let twice = seq!["--cloud"@, target] + again;
    assert((seq![program] + before + apart).skip(1) =~= before + apart);
    assert((seq![program] + before + joined).skip(1) =~= before + joined);
    assert((seq![program] + before + bare).skip(1) =~= before + bare);
    assert((seq![program] + before + twice).skip(1) =~= before + twice);
    lemma_scan_behind_plain(before, apart, None);
    lemma_scan_behind_plain(before, joined, None);
    lemma_scan_behind_plain(before, bare, None);
    lemma_scan_behind_plain(before, twice, None);
    assert(apart[0] == "--cloud"@ && apart[1] == target);
    assert(joined[0] == arg);
    assert(arg.len() >= 8);
    assert(arg.len() != "--"@.len() && arg.len() != "--cloud"@.len());
    assert("--cloud="@ =~= arg.take(8));
    assert(arg.skip(8) =~= target);
    assert(twice[0] == "--cloud"@ && twice[1] == target);
    assert(twice.skip(2) =~= again);
    assert(again[0] == "--cloud"@);
    assert(scan_cloud_args(again, Some(target)) is Err);
    assert(scan_cloud_args(twice, None) is Err);
}

proof fn lemma_scan_plain_seen(args: Seq<Seq<char>>, seen: Option<Seq<char>>)
    requires
        forall|i: int| 0 <= i < args.len() ==> !is_cloud_flag(#[trigger] args[i]),
    ensures
        scan_cloud_args(args, seen) == Ok::<_, Seq<char>>((args, seen)),
    decreases args.len(),
{
    if args.len() == 0 {
        assert(args =~= Seq::<Seq<char>>::empty());
    } else {
        assert(!is_cloud_flag(args[0]));
        assert forall|i: int| 0 <= i < args.skip(1).len() implies !is_cloud_flag(
            #[trigger] args.skip(1)[i],
        ) by {
            assert(args.skip(1)[i] == args[i + 1]);
        }
        lemma_scan_plain_seen(args.skip(1), seen);
        assert(seq![args[0]] + args.skip(1) =~= args);
    }
}

proof fn lemma_scan_behind_plain(
    before: Seq<Seq<char>>,
    rest: Seq<Seq<char>>,
    seen: Option<Seq<char>>,
)
    requires
        forall|i: int|
            0 <= i < before.len() ==> !is_cloud_flag(#[trigger] before[i]) && before[i] != "--"@,
    ensures
        scan_cloud_args(before + rest, seen) == keeping(before, scan_cloud_args(rest, seen)),
    decreases before.len(),
{
    if before.len() == 0 {
        assert(before + rest =~= rest);
        if let Ok((kept, _)) = scan_cloud_args(rest, seen) {
            assert(before + kept =~= kept);
        }
    } else {
        let tail = before.skip(1);
        assert((before + rest)[0] == before[0]);
        assert((before + rest).skip(1) =~= tail + rest);
        assert(!is_cloud_flag(before[0]) && before[0] != "--"@);
        assert forall|i: int| 0 <= i < tail.len() implies !is_cloud_flag(#[trigger] tail[i])
            && tail[i] != "--"@ by {
            assert(tail[i] == before[i + 1]);
        }
        lemma_scan_behind_plain(tail, rest, seen);
        if let Ok((kept, _)) = scan_cloud_args(rest, seen) {
            assert(seq![before[0]] + (tail + kept) =~= before + kept);
        }
    }
}

/// A refusal of the credentials is told by what SSH says, wherever in the message it
/// stands: that permission was denied, and one of the ways of logging in.
pub proof fn law_refused_credentials_are_recognised(
    first: Seq<char>,
    middle: Seq<char>,
    last: Seq<char>,
    message: Seq<char>,
)
    ensures
        auth_error(first + "Permission denied"@ + middle + "(publickey"@ + last),
        auth_error(first + "Permission denied"@ + middle + "(keyboard-interactive"@ + last),
        auth_error(first + "Permission denied"@ + middle + "(password"@ + last),
        !has_substring(message, "Permission denied"@) ==> !auth_error(message),
        !has_substring(message, "(publickey"@) && !has_substring(message, "(keyboard-interactive"@)
            && !has_substring(message, "(password"@) ==> !auth_error(message),
{
    let denied = "Permission denied"@;
    lemma_refusal(first, denied, middle, "(publickey"@, last);
    lemma_refusal(first, denied, middle, "(keyboard-interactive"@, last);
    lemma_refusal(first, denied, middle, "(password"@, last);
}

proof fn lemma_refusal(
    first: Seq<char>,
    denied: Seq<char>,
    middle: Seq<char>,
    way: Seq<char>,
    last: Seq<char>,
)
    ensures
        has_substring(first + denied + middle + way + last, denied),
        has_substring(first + denied + middle + way + last, way),
{
    law_substring_is_surrounded(first, denied, middle + way + last);
    assert(first + denied + (middle + way + last) =~= first + denied + middle + way + last);
    law_substring_is_surrounded(first + denied + middle, way, last);
}

/// A word is left as it is only where it is not empty and holds nothing but letters,
/// digits and `@%_+=:,./-`; anything else is put in quotes.
pub proof fn law_special_words_are_quoted(value: Seq<char>)
    ensures
        ({
            let plain = value.len() > 0 && forall|i: int|
                0 <= i < value.len() ==> {
                    let c = #[trigger] value[i];
                    'a' <= c <= 'z' || 'A' <= c <= 'Z' || '0' <= c <= '9' || c == '@' || c == '%'
                        || c == '_' || c == '+' || c == '=' || c == ':' || c == ',' || c == '.' || c
                        == '/' || c == '-'
                };
            &&& plain ==> shell_quoted(value) == value
            &&& !plain ==> shell_quoted(value).len() >= value.len() + 2 && shell_quoted(value)[0]
                == '\'' && shell_quoted(value).last() == '\''
        }),
{
    lemma_quoted_body_grows(value);
    let keep = |c: char| shell_plain(c);
    if value.all(keep) {
        assert forall|i: int| 0 <= i < value.len() implies shell_plain(#[trigger] value[i]) by {
            assert(keep(value[i]));
        }
    } else {
        let i = choose|i: int| 0 <= i < value.len() && !keep(#[trigger] value[i]);
        assert(!shell_plain(value[i]));
    }
}

proof fn lemma_quoted_body_grows(s: Seq<char>)
    ensures
        quoted_body(s).len() >= s.len(),
    decreases s.len(),
{
    if s.len() > 0 {
        lemma_quoted_body_grows(s.drop_first());
    }
}

} // verus!
