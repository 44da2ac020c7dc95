use crate::text::{chars_of, push_char};
use vstd::prelude::*;
use vstd::string::*;

verus! {

/// The character of decimal digit `d`.
pub open spec fn digit(d: nat) -> char {
    if d == 0 {
        '0'
    } else if d == 1 {
        '1'
    } else if d == 2 {
        '2'
    } else if d == 3 {
        '3'
    } else if d == 4 {
        '4'
    } else if d == 5 {
        '5'
    } else if d == 6 {
        '6'
    } else if d == 7 {
        '7'
    } else if d == 8 {
        '8'
    } else {
        '9'
    }
}

/// The decimal notation of `n`, without leading zeros.
pub open spec fn decimal(n: nat) -> Seq<char>
    decreases n,
{
    if n < 10 {
        seq![digit(n)]
    } else {
        decimal(n / 10).push(digit(n % 10))
    }
}

/// `n` spaces.
pub open spec fn spaces(n: nat) -> Seq<char> {
    Seq::new(n, |i: int| ' ')
}

/// At most the first `n` characters of `s`.
pub open spec fn cut(s: Seq<char>, n: int) -> Seq<char> {
    if n < s.len() {
        s.take(n)
    } else {
        s
    }
}

/// The status bar of a window `width` wide: the file's name (at most 20
/// characters, or `[No Name]`) and line count on the left, the cursor's
/// line (counted from one) and the line count on the right, cut to the width.
pub open spec fn status_text(name: Option<Seq<char>>, lines: nat, line: nat, width: nat) -> Seq<char> {
    let shown_name = match name {
        Some(n) => cut(n, 20),
        None => seq!['[', 'N', 'o', ' ', 'N', 'a', 'm', 'e', ']'],
    };
    let left = shown_name + seq![' ', '-', ' '] + decimal(lines) + seq![' ', 'l', 'i', 'n', 'e', 's'];
    let right = decimal(line) + seq!['/'] + decimal(lines);
    let gap = if width > left.len() + right.len() {
        spaces((width - left.len() - right.len()) as nat)
    } else {
        seq![]
    };
    cut(left + gap + right, width as int)
}

/// The welcome line of a window `width` wide: a tilde, then the title
/// centred (one column left of centre), cut to the width.
pub open spec fn welcome_text(version: Seq<char>, width: nat) -> Seq<char> {
    let title = seq!['J', 'o', 's', 'k', 'i', 'l', 'o', ' ', 'e', 'd', 'i', 't', 'o', 'r', ' ', '-', '-', ' ', 'v', 'e', 'r', 's', 'i', 'o', 'n', ' '] + version;
    let padding: int = if width > title.len() { (width - title.len()) / 2 } else { 0 };
    let lead: int = if padding > 0 { padding - 1 } else { 0 };
    cut(seq!['~'] + spaces(lead as nat) + title, width as int)
}

fn digit_char(d: usize) -> (r: char)
    requires
        d < 10,
    ensures
        r == digit(d as nat),
{
    if d == 0 {
        '0'
    } else if d == 1 {
        '1'
    } else if d == 2 {
        '2'
    } else if d == 3 {
        '3'
    } else if d == 4 {
        '4'
    } else if d == 5 {
        '5'
    } else if d == 6 {
        '6'
    } else if d == 7 {
        '7'
    } else if d == 8 {
        '8'
    } else {
        '9'
    }
}

/// Appends the decimal notation of `n` to `s`.
fn push_decimal(s: &mut String, n: usize)
    ensures
        final(s)@ == old(s)@ + decimal(n as nat),
    decreases n,
{
    if n >= 10 {
        push_decimal(s, n / 10);
    }
    push_char(s, digit_char(n % 10));
    assert(final(s)@ =~= old(s)@ + decimal(n as nat));
}

/// Appends the characters of `t` to `s`.
fn push_all(s: &mut String, chars: &Vec<char>)
    ensures
        final(s)@ == old(s)@ + chars@,
{
    let ghost t = chars@;
    let mut i: usize = 0;
    while i < chars.len()
        invariant
            i <= chars@.len(),
            chars@ == t,
            s@ == old(s)@ + t.take(i as int),
        decreases chars@.len() - i,
    {
        push_char(s, chars[i]);
        assert(t.take(i + 1) =~= t.take(i as int).push(t[i as int]));
        i = i + 1;
    }
    assert(t.take(i as int) =~= t);
}

/// At most the first `n` characters of `text`.
pub fn truncated(text: &str, n: usize) -> (r: String)
    ensures
        r@ == cut(text@, n as int),
{
    let chars = chars_of(text);
    let mut r = String::new();
    let mut i: usize = 0;
    while i < n && i < chars.len()
        invariant
            i <= chars@.len(),
            i <= n,
            chars@ == text@,
            r@ == text@.take(i as int),
        decreases chars@.len() - i,
    {
        push_char(&mut r, chars[i]);
        assert(text@.take(i + 1) =~= text@.take(i as int).push(text@[i as int]));
        i = i + 1;
    }
    assert(i == n ==> (n < text@.len() || r@ =~= text@));
    assert(i == chars@.len() ==> r@ =~= text@);
    r
}

/// Appends `n` spaces to `s`.
fn push_spaces(s: &mut String, n: usize)
    ensures
        final(s)@ == old(s)@ + spaces(n as nat),
{
    let mut i: usize = 0;
    while i < n
        invariant
            i <= n,
            s@ == old(s)@ + spaces(i as nat),
        decreases n - i,
    {
        push_char(s, ' ');
        assert(spaces((i + 1) as nat) =~= spaces(i as nat).push(' '));
        i = i + 1;
    }
}

/// The status bar for a file `name`d or unnamed, with `lines` lines and the
/// cursor on line `line` (from one), in a window `width` wide.
pub fn status_line(name: Option<&str>, lines: usize, line: usize, width: usize) -> (r: String)
    ensures
        r@ == status_text(
            match name {
                Some(n) => Some(n@),
                None => None,
            },
            lines as nat,
            line as nat,
            width as nat,
        ),
{
    let mut left = match name {
        Some(n) => truncated(n, 20),
        None => {
            let mut s = String::new();
            let c = chars_of("[No Name]");
            proof {
                reveal_strlit("[No Name]");
            }
            push_all(&mut s, &c);
            assert(c@ =~= seq!['[', 'N', 'o', ' ', 'N', 'a', 'm', 'e', ']']);
            s
        },
    };
    let ghost shown_name = left@;
    push_char(&mut left, ' ');
    push_char(&mut left, '-');
    push_char(&mut left, ' ');
    push_decimal(&mut left, lines);
    let suffix = chars_of(" lines");
    proof {
        reveal_strlit(" lines");
    }
    push_all(&mut left, &suffix);
    assert(suffix@ =~= seq![' ', 'l', 'i', 'n', 'e', 's']);
    assert(left@ =~= shown_name + seq![' ', '-', ' '] + decimal(lines as nat) + seq![' ', 'l', 'i', 'n', 'e', 's']);
    let mut right = String::new();
    push_decimal(&mut right, line);
    push_char(&mut right, '/');
    push_decimal(&mut right, lines);
    assert(right@ =~= decimal(line as nat) + seq!['/'] + decimal(lines as nat));
    let left_len = chars_of(left.as_str()).len();
    let right_len = chars_of(right.as_str()).len();
    let mut status = left;
    if right_len <= width && left_len < width - right_len {
        push_spaces(&mut status, width - right_len - left_len);
    }
    let ghost padded = status@;
    status.append(right.as_str());
    let r = truncated(status.as_str(), width);
    assert(status@ =~= padded + right@);
    r
}

/// The welcome line for `version` in a window `width` wide.
pub fn welcome_line(version: &str, width: usize) -> (r: String)
    requires
        version@.len() < usize::MAX - 32,
    ensures
        r@ == welcome_text(version@, width as nat),
{
    let title_start = chars_of("Joskilo editor -- version ");
    let v = chars_of(version);
    let ghost head = seq!['J', 'o', 's', 'k', 'i', 'l', 'o', ' ', 'e', 'd', 'i', 't', 'o', 'r', ' ', '-', '-', ' ', 'v', 'e', 'r', 's', 'i', 'o', 'n', ' '];
    proof {
        reveal_strlit("Joskilo editor -- version ");
    }
    let len = title_start.len() + v.len();
    let padding = if width > len { (width - len) / 2 } else { 0 };
    let lead = if padding > 0 { padding - 1 } else { 0 };
    let mut line = String::new();
    push_char(&mut line, '~');
    push_spaces(&mut line, lead);
    push_all(&mut line, &title_start);
    push_all(&mut line, &v);
    assert(title_start@ =~= head);
    assert(line@ =~= seq!['~'] + spaces(lead as nat) + (head + version@));
    truncated(line.as_str(), width)
}

/// The message bar: `text` cut to the width while it is shown, else nothing.
pub fn message_line(text: &str, elapsed_millis: u64, width: usize) -> (r: String)
    ensures
        r@ == if elapsed_millis < 5000 {
            cut(text@, width as int)
        } else {
            Seq::<char>::empty()
        },
{
    if elapsed_millis < 5000 {
        truncated(text, width)
    } else {
        String::new()
    }
}

} // verus!
