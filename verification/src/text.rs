use vstd::prelude::*;
use vstd::string::*;

verus! {

/// The text `a` followed by the text `b`.
pub fn join_text(a: &str, b: &str) -> (res: String)
    ensures
        res@ == a@ + b@,
{
    let mut res = String::from_str(a);
    res.append(b);
    res
}

/// `path` extended by one relative component `name`, separated by `/`
/// unless `path` is empty or already ends in `/`.
pub open spec fn joined_path(path: Seq<char>, name: Seq<char>) -> Seq<char> {
    if path.len() == 0 {
        name
    } else if path.last() == '/' {
        path + name
    } else {
        path + seq!['/'] + name
    }
}

/// Appends the relative component `name` to `path`.
pub fn join_path(path: &str, name: &str) -> (res: String)
    ensures
        res@ == joined_path(path@, name@),
{
    let n = path.unicode_len();
    if n == 0 {
        return String::from_str(name);
    }
    let last = path.get_char(n - 1);
    let mut res = String::from_str(path);
    if last != '/' {
        res.append("/");
        proof {
            reveal_strlit("/");
            assert(res@ == path@ + seq!['/']);
        }
    }
    res.append(name);
    res
}

/// White space as Unicode's `White_Space` property defines it, which is
/// what `char::is_whitespace` tests.
pub open spec fn is_white_space(c: char) -> bool {
    ||| ('\u{9}' <= c && c <= '\u{d}')
    ||| c == ' '
    ||| c == '\u{85}'
    ||| c == '\u{a0}'
    ||| c == '\u{1680}'
    ||| ('\u{2000}' <= c && c <= '\u{200a}')
    ||| c == '\u{2028}'
    ||| c == '\u{2029}'
    ||| c == '\u{202f}'
    ||| c == '\u{205f}'
    ||| c == '\u{3000}'
}

/// Tests one character for Unicode white space.
pub fn char_is_white_space(c: char) -> (res: bool)
    ensures
        res == is_white_space(c),
{
    ('\u{9}' <= c && c <= '\u{d}') || c == ' ' || c == '\u{85}' || c == '\u{a0}' || c
        == '\u{1680}' || ('\u{2000}' <= c && c <= '\u{200a}') || c == '\u{2028}' || c
        == '\u{2029}' || c == '\u{202f}' || c == '\u{205f}' || c == '\u{3000}'
}

/// A text is blank when trimming white space leaves nothing: every
/// character of it is white space.
pub open spec fn is_blank_text(s: Seq<char>) -> bool {
    forall|i: int| 0 <= i < s.len() ==> is_white_space(#[trigger] s[i])
}

/// Tests whether `s.trim()` would be empty.
pub fn is_blank(s: &str) -> (res: bool)
    ensures
        res == is_blank_text(s@),
{
    let n = s.unicode_len();
    let mut i: usize = 0;
    while i < n
        invariant
            n == s@.len(),
            i <= n,
            forall|j: int| 0 <= j < i ==> is_white_space(#[trigger] s@[j]),
        decreases n - i,
    {
        let c = s.get_char(i);
        if !char_is_white_space(c) {
            return false;
        }
        i = i + 1;
    }
    true
}

} // verus!
