//! The desktop app's terminals: which shell a new terminal runs, and what
//! the reader of a terminal's output sends to the page.

use vstd::prelude::*;
use crate::text::same_text;
use base64::Engine;

verus! {

/// The character of a six-bit value in the standard base64 alphabet:
/// `A`-`Z`, `a`-`z`, `0`-`9`, `+`, `/`.
pub open spec fn base64_digit(v: int) -> char {
    if v < 26 {
        (65 + v) as char
    } else if v < 52 {
        (97 + v - 26) as char
    } else if v < 62 {
        (48 + v - 52) as char
    } else if v == 62 {
        '+'
    } else {
        '/'
    }
}

/// Standard base64 with `=` padding (RFC 4648): each group of three bytes
/// becomes four characters of six bits each; a last group of one or two
/// bytes is padded with `=` to four characters.
pub open spec fn base64_standard(b: Seq<u8>) -> Seq<char>
    decreases b.len(),
{
    let x = b[0] as int;
    let y = b[1] as int;
    let z = b[2] as int;
    if b.len() == 0 {
        Seq::empty()
    } else if b.len() == 1 {
        seq![base64_digit(x / 4), base64_digit((x % 4) * 16), '=', '=']
    } else if b.len() == 2 {
        seq![base64_digit(x / 4), base64_digit((x % 4) * 16 + y / 16), base64_digit((y % 16) * 4), '=']
    } else {
        seq![
            base64_digit(x / 4),
            base64_digit((x % 4) * 16 + y / 16),
            base64_digit((y % 16) * 4 + z / 64),
            base64_digit(z % 64),
        ] + base64_standard(b.skip(3))
    }
}

/// The length of padded base64 for `n` bytes: four characters for every
/// started group of three.
pub open spec fn base64_len(n: nat) -> nat {
    ((n + 2) / 3 * 4) as nat
}

/// Padded base64 has four characters for every started group of three
/// bytes.
pub proof fn lemma_base64_len(b: Seq<u8>)
    ensures
        base64_standard(b).len() == base64_len(b.len()),
    decreases b.len(),
{
    if b.len() > 2 {
        lemma_base64_len(b.skip(3));
    }
}

/// `base64::engine::general_purpose::STANDARD.encode`. Claimed: the result
/// is the standard padded base64 of the bytes (`base64_standard`), as the
/// crate's standard engine writes it. The crate panics when the encoded
/// length does not fit in `usize`, so inputs in the top half of the range
/// are left out.
#[verifier::external_body]
fn base64_encode(bytes: &[u8]) -> (r: String)
    requires
        bytes@.len() <= usize::MAX / 2,
    ensures
        r@ == base64_standard(bytes@),
{
    base64::engine::general_purpose::STANDARD.encode(bytes)
}

/// What a terminal's output reader does after a read of `read` bytes into
/// `buf` (`None`: the read failed): it stops at the end of the output or
/// on an error, and otherwise sends the bytes read, in base64.
pub fn pty_output_event(read: Option<usize>, buf: &[u8]) -> (r: Option<String>)
    requires
        read matches Some(n) ==> n <= buf@.len(),
        buf@.len() <= usize::MAX / 2,
    ensures
        match read {
            Some(n) => if n == 0 {
                r is None
            } else {
                r matches Some(t) && t@ == base64_standard(buf@.take(n as int))
            },
            None => r is None,
        },
{
    match read {
        Some(n) => {
            if n == 0 {
                None
            } else {
                let chunk = vstd::slice::slice_subrange(buf, 0, n);
                assert(chunk@ =~= buf@.take(n as int));
                Some(base64_encode(chunk))
            }
        },
        None => None,
    }
}

/// Whether `pat` occurs in `s`.
pub open spec fn contains_text(s: Seq<char>, pat: Seq<char>) -> bool {
    exists|i: int| 0 <= i && i + pat.len() <= s.len() && #[trigger] s.subrange(i, i + pat.len()) == pat
}

/// Whether `pat` occurs in `s` (`s.contains(pat)`).
pub fn contains_str(s: &str, pat: &str) -> (r: bool)
    ensures
        r == contains_text(s@, pat@),
{
    let n = s.unicode_len();
    let m = pat.unicode_len();
    if m > n {
        proof {
            if contains_text(s@, pat@) {
                let i = choose|i: int| 0 <= i && i + pat@.len() <= s@.len() && #[trigger] s@.subrange(i, i + pat@.len()) == pat@;
            }
        }
        return false;
    }
    if m == 0 {
        assert(s@.subrange(0int, 0int + pat@.len()) =~= pat@);
        assert(contains_text(s@, pat@));
        return true;
    }
    let mut i: usize = 0;
    while i <= n - m
        invariant
            m > 0,
            n == s@.len(),
            m == pat@.len(),
            m <= n,
            i <= n - m + 1,
            forall|j: int| 0 <= j < i ==> #[trigger] s@.subrange(j, j + m) != pat@,
        decreases n - m + 1 - i,
    {
        if same_text(s.substring_char(i, i + m), pat) {
            return true;
        }
        i = i + 1;
    }
    proof {
        if contains_text(s@, pat@) {
            let k = choose|k: int| 0 <= k && k + pat@.len() <= s@.len() && #[trigger] s@.subrange(k, k + pat@.len()) == pat@;
            assert(s@.subrange(k, k + m) != pat@);
        }
    }
    false
}

/// The shell a new terminal runs outside Windows: the user's `SHELL`, or
/// `/bin/sh` when it is not set.
pub fn default_shell(shell_var: Option<String>) -> (r: String)
    ensures
        r@ == (match shell_var {
            Some(s) => s@,
            None => "/bin/sh"@,
        }),
{
    match shell_var {
        Some(s) => s,
        None => "/bin/sh".to_owned(),
    }
}

/// The shell a new terminal runs on Windows: WSL when `wsl --status`
/// succeeds, else PowerShell.
pub fn windows_shell(wsl_available: bool) -> (r: String)
    ensures
        r@ == (if wsl_available { "wsl"@ } else { "powershell.exe"@ }),
{
    if wsl_available { "wsl".to_owned() } else { "powershell.exe".to_owned() }
}

/// The arguments the shell is started with: on Windows, a WSL shell runs
/// `bash --login` directly; nothing otherwise.
pub fn shell_args(shell: &str, windows: bool) -> (r: Vec<String>)
    ensures
        r@.len() == (if windows && contains_text(shell@, "wsl"@) { 3nat } else { 0nat }),
        r@.len() == 3 ==> r@[0]@ == "-e"@ && r@[1]@ == "bash"@ && r@[2]@ == "--login"@,
{
    let mut args: Vec<String> = Vec::new();
    if windows && contains_str(shell, "wsl") {
        args.push("-e".to_owned());
        args.push("bash".to_owned());
        args.push("--login".to_owned());
    }
    args
}

} // verus!
