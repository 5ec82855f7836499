//! Shortening sensitive text before it is logged.
use vstd::prelude::*;
use vstd::utf8::*;

use crate::profile::BuildProfile;

verus! {

/// `s` with only a brief prefix and suffix left of it. Text beyond ASCII says
/// more with each character (four of them can be a full name), so of such text
/// one character is left.
pub open spec fn redacted(s: Seq<char>) -> Seq<char> {
    if is_ascii_chars(s) {
        if s.len() <= 4 {
            s
        } else {
            s.take(2) + "..."@ + s.skip(s.len() - 2)
        }
    } else {
        if s.len() <= 1 {
            s
        } else {
            s.take(1) + "..."@
        }
    }
}

/// What a build logs of the sensitive text `s`.
pub open spec fn logged(build: BuildProfile, s: Seq<char>) -> Seq<char> {
    if build.full_logs() {
        s
    } else {
        redacted(s)
    }
}

/// Redacts `s` by keeping only a brief prefix and suffix. If it holds
/// characters beyond ASCII, only one character is kept. A build that shows full
/// logs keeps all of it.
pub fn redact_for_logging(build: &BuildProfile, s: &str) -> (out: String)
    ensures
        out@ == logged(*build, s@),
{
    if build.shows_full_logs() {
        return s.to_owned();
    }
    let n: usize = s.unicode_len();
    let mut out = String::new();
    if s.is_ascii() {
        if n <= 4 {
            return s.to_owned();
        }
        out.append(s.substring_ascii(0, 2));
        out.append("...");
        out.append(s.substring_ascii(n - 2, n));
        proof {
            assert(s@.subrange(0, 2) =~= s@.take(2));
            assert(s@.subrange(n - 2, n as int) =~= s@.skip(n - 2));
            assert(out@ =~= redacted(s@));
        }
    } else {
        if n <= 1 {
            return s.to_owned();
        }
        out.append(s.substring_char(0, 1));
        out.append("...");
        proof {
            assert(s@.subrange(0, 1) =~= s@.take(1));
            assert(out@ =~= redacted(s@));
        }
    }
    out
}

/// Redacting what was redacted changes nothing more.
pub proof fn redaction_is_idempotent(s: Seq<char>)
    ensures
        redacted(redacted(s)) == redacted(s),
{
    reveal_strlit("...");
    let r = redacted(s);
    if is_ascii_chars(s) && s.len() > 4 {
        assert(is_ascii_chars(r));
        assert(redacted(r) =~= r);
    } else if !is_ascii_chars(s) && s.len() > 1 {
        if !is_ascii_chars(r) {
            assert(redacted(r) =~= r);
        }
    }
}

/// Redaction reveals a prefix and a suffix of at most four characters together,
/// and of text beyond ASCII at most one character; what stands between them
/// does not matter to the result.
pub proof fn redaction_reveals_little(s: Seq<char>)
    ensures
        redacted(s).len() <= 7,
        is_ascii_chars(s) && s.len() > 4 ==> forall|t: Seq<char>|
            is_ascii_chars(t) && t.len() > 4 && t.take(2) == s.take(2) && t.skip(t.len() - 2)
                == s.skip(s.len() - 2) ==> #[trigger] redacted(t) == redacted(s),
        !is_ascii_chars(s) && s.len() > 1 ==> forall|t: Seq<char>|
            !is_ascii_chars(t) && t.len() > 1 && t[0] == s[0] ==> #[trigger] redacted(t)
                == redacted(s),
{
    reveal_strlit("...");
    if !is_ascii_chars(s) && s.len() > 1 {
        assert forall|t: Seq<char>|
            !is_ascii_chars(t) && t.len() > 1 && t[0] == s[0] implies #[trigger] redacted(t)
            == redacted(s) by {
            assert(t.take(1) =~= s.take(1));
        }
    }
}

/// A build that shows full logs logs sensitive text as it is, every other build
/// its redaction, and nothing of an empty text.
pub proof fn builds_log_in_full_or_redacted(build: BuildProfile, s: Seq<char>)
    ensures
        build.testing ==> logged(build, s) == redacted(s),
        !build.debug_assertions ==> logged(build, s) == redacted(s),
        build.debug_assertions && !build.testing ==> logged(build, s) == s,
        logged(build, Seq::<char>::empty()) == Seq::<char>::empty(),
{
}

/// What a redaction shows, character by character. A text of ASCII characters
/// alone shows its first two and its last two, with three periods between, if it
/// has more than four; any other text shows its first, with three periods after
/// it, if it has more than one. Shorter texts stay as they are.
pub proof fn redaction_shows_the_ends(s: Seq<char>)
    ensures
        ({
            let r = redacted(s);
            let n = s.len() as int;
            let ascii = forall|i: int| 0 <= i < n ==> 0 <= ((#[trigger] s[i]) as int) < 128;
            &&& ascii && n > 4 ==> {
                &&& r.len() == 7
                &&& r[0] == s[0] && r[1] == s[1]
                &&& r[2] == '.' && r[3] == '.' && r[4] == '.'
                &&& r[5] == s[n - 2] && r[6] == s[n - 1]
            }
            &&& !ascii && n > 1 ==> {
                &&& r.len() == 4
                &&& r[0] == s[0]
                &&& r[1] == '.' && r[2] == '.' && r[3] == '.'
            }
            &&& (ascii && n <= 4) || n <= 1 ==> r == s
        }),
{
    reveal_strlit("...");
    let n = s.len() as int;
    let ascii = forall|i: int| 0 <= i < n ==> 0 <= ((#[trigger] s[i]) as int) < 128;
    if ascii {
        assert forall|i: int| 0 <= i < n implies '\0' <= #[trigger] s[i] <= '\u{7f}' by {}
    } else {
        let i = choose|i: int| 0 <= i < n && !(0 <= ((#[trigger] s[i]) as int) < 128);
        assert(!('\0' <= s[i] <= '\u{7f}'));
    }
}

} // verus!
