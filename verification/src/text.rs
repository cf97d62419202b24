//! Path and text building shared by the planners. Paths are joined with the
//! separator of the host, which the caller names.

use vstd::prelude::*;
use vstd::string::*;

verus! {

/// The character that separates the components of a path on the host.
#[derive(Debug, Clone, Copy, PartialEq, Eq, Structural)]
pub enum Separator {
    /// `\`, as on Windows. There `/` separates components as well.
    Backslash,
    /// `/`, as on Unix. There `\` is a character like any other.
    Slash,
}

impl Separator {
    /// The separator as a character.
    pub open spec fn char_of(self) -> char {
        match self {
            Separator::Backslash => '\\',
            Separator::Slash => '/',
        }
    }

    /// Whether a path that ends with `c` ends with a separator on the host.
    pub open spec fn ends_path(self, c: char) -> bool {
        match self {
            Separator::Backslash => c == '\\' || c == '/',
            Separator::Slash => c == '/',
        }
    }

    /// The separator of a host whose main separator is `c`: `Backslash` for
    /// `\`, `Slash` for anything else.
    pub open spec fn of_char(c: char) -> Separator {
        if c == '\\' {
            Separator::Backslash
        } else {
            Separator::Slash
        }
    }

    /// The separator of a host whose main separator is `c`.
    pub fn from_char(c: char) -> (separator: Separator)
        ensures
            separator == Separator::of_char(c),
    {
        if c == '\\' {
            Separator::Backslash
        } else {
            Separator::Slash
        }
    }

    /// The separator as a character.
    pub fn as_char(self) -> (c: char)
        ensures
            c == self.char_of(),
    {
        match self {
            Separator::Backslash => '\\',
            Separator::Slash => '/',
        }
    }
}

/// Characters that end a component of an entry name, whatever the host.
pub open spec fn is_separator(c: char) -> bool {
    c == '/' || c == '\\'
}

/// `base` with `name` placed under it: the host's separator is inserted
/// unless `base` is empty or already ends with a separator of the host. The
/// two texts are not read as paths: `name` never replaces `base`.
pub open spec fn joined(base: Seq<char>, name: Seq<char>, separator: Separator) -> Seq<char> {
    if base.len() == 0 {
        name
    } else if separator.ends_path(base.last()) {
        base + name
    } else {
        base + seq![separator.char_of()] + name
    }
}

/// Places `name` under `base` by putting the one text after the other, with
/// the host's separator between them where `base` does not end with one. It
/// does not read either text as a path: a separator goes after a bare drive
/// (`C:` and `name` give `C:\name`), and a `name` that is absolute does not
/// replace `base`. Every caller in this crate places a plain component or a
/// fixed file name.
pub fn join_path(base: &str, name: &str, separator: Separator) -> (path: String)
    ensures
        path@ == joined(base@, name@, separator),
{
    let n: usize = base.unicode_len();
    let mut path = String::from_str(base);
    if n > 0 {
        let last = base.get_char(n - 1);
        let ends = match separator {
            Separator::Backslash => last == '\\' || last == '/',
            Separator::Slash => last == '/',
        };
        if !ends {
            path.push(separator.as_char());
        }
    }
    path.append(name);
    path
}

/// The ten digits.
pub open spec fn digits() -> Seq<char> {
    seq!['0', '1', '2', '3', '4', '5', '6', '7', '8', '9']
}

/// `n` in decimal, without leading zeros.
pub open spec fn decimal(n: nat) -> Seq<char>
    decreases n,
{
    if n < 10 {
        seq![digits()[n as int]]
    } else {
        decimal(n / 10).push(digits()[(n % 10) as int])
    }
}

/// The digit `d` as text.
fn digit_text(d: u64) -> (text: &'static str)
    requires
        d < 10,
    ensures
        text@ == seq![digits()[d as int]],
{
    proof {
        reveal_strlit("0");
        reveal_strlit("1");
        reveal_strlit("2");
        reveal_strlit("3");
        reveal_strlit("4");
        reveal_strlit("5");
        reveal_strlit("6");
        reveal_strlit("7");
        reveal_strlit("8");
        reveal_strlit("9");
    }
    let text = if d == 0 {
        "0"
    } else if d == 1 {
        "1"
    } else if d == 2 {
        "2"
    } else if d == 3 {
        "3"
    } else if d == 4 {
        "4"
    } else if d == 5 {
        "5"
    } else if d == 6 {
        "6"
    } else if d == 7 {
        "7"
    } else if d == 8 {
        "8"
    } else {
        "9"
    };
    assert(text@ =~= seq![digits()[d as int]]);
    text
}

/// Appends `n` in decimal to `out`.
pub(crate) fn append_decimal(out: &mut String, n: u64)
    ensures
        final(out)@ == old(out)@ + decimal(n as nat),
    decreases n,
{
    if n >= 10 {
        append_decimal(out, n / 10);
    }
    out.append(digit_text(n % 10));
    assert(out@ =~= old(out)@ + decimal(n as nat));
}

/// `String::push` of the standard library. Trusted: it appends the character
/// to the end of the string.
pub assume_specification[ String::push ](s: &mut String, ch: char)
    ensures
        final(s)@ == old(s)@.push(ch),
;

/// `text` as the standard library's `Debug` formatting of a string prints it:
/// between double quotes, with quotes, backslashes and control characters
/// escaped.
pub uninterp spec fn quoted_text(text: Seq<char>) -> Seq<char>;

/// Formats `text` with `{:?}`, that is through `<str as std::fmt::Debug>::fmt`.
/// Trusted: the result is the quoted form of the text, which depends on the
/// text alone.
#[verifier::external_body]
pub(crate) fn quoted(text: &str) -> (q: String)
    ensures
        q@ == quoted_text(text@),
{
    format!("{:?}", text)
}

} // verus!
