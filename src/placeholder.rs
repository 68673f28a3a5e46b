//! The placeholder token `{}` inside a command line, and its substitution.
use vstd::prelude::*;
use vstd::string::*;

verus! {

/// The token `{}` starts at position `i` of `s`.
pub open spec fn token_at(s: Seq<char>, i: int) -> bool {
    0 <= i && i + 1 < s.len() && s[i] == '{' && s[i + 1] == '}'
}

/// `s` holds the token at least once.
pub open spec fn has_token(s: Seq<char>) -> bool {
    exists|i: int| token_at(s, i)
}

/// The token starts at `i`, and at no earlier position.
pub open spec fn first_token_at(s: Seq<char>, i: int) -> bool {
    token_at(s, i) && forall|j: int| 0 <= j < i ==> !token_at(s, j)
}

/// `s` with its first token replaced by `v`; `s` itself when it holds none.
pub open spec fn replace_first(s: Seq<char>, v: Seq<char>) -> Seq<char> {
    if has_token(s) {
        let i = choose|i: int| first_token_at(s, i);
        s.subrange(0, i) + v + s.subrange(i + 2, s.len() as int)
    } else {
        s
    }
}

/// `c` has the Unicode White_Space property.
pub open spec fn is_white_space(c: char) -> bool {
    let u = c as u32;
    (9 <= u <= 13) || u == 32 || u == 0x85 || u == 0xA0 || u == 0x1680 || (0x2000 <= u <= 0x200A)
        || u == 0x2028 || u == 0x2029 || u == 0x202F || u == 0x205F || u == 0x3000
}

/// `s` without its leading white space.
pub open spec fn trim_start(s: Seq<char>) -> Seq<char>
    decreases s.len(),
{
    if s.len() > 0 && is_white_space(s[0]) {
        trim_start(s.drop_first())
    } else {
        s
    }
}

/// `s` without its trailing white space.
pub open spec fn trim_end(s: Seq<char>) -> Seq<char>
    decreases s.len(),
{
    if s.len() > 0 && is_white_space(s.last()) {
        trim_end(s.drop_last())
    } else {
        s
    }
}

/// `s` without its leading and trailing white space.
pub open spec fn trimmed(s: Seq<char>) -> Seq<char> {
    trim_end(trim_start(s))
}

/// Whether `c` has the Unicode White_Space property.
fn white_space(c: char) -> (r: bool)
    ensures
        r == is_white_space(c),
{
    let u = c as u32;
    (9 <= u && u <= 13) || u == 32 || u == 0x85 || u == 0xA0 || u == 0x1680 || (0x2000 <= u && u
        <= 0x200A) || u == 0x2028 || u == 0x2029 || u == 0x202F || u == 0x205F || u == 0x3000
}

/// `s` without its leading and trailing white space.
pub fn trim_line(s: &str) -> (r: String)
    ensures
        r@ == trimmed(s@),
{
    let n = s.unicode_len();
    let mut i: usize = 0;
    assert(s@.subrange(0, n as int) =~= s@);
    while i < n && white_space(s.get_char(i))
        invariant
            n == s@.len(),
            i <= n,
            trim_start(s@) == trim_start(s@.subrange(i as int, n as int)),
        decreases n - i,
    {
        assert(s@.subrange(i as int, n as int).drop_first() =~= s@.subrange(i + 1, n as int));
        i = i + 1;
    }
    assert(trim_start(s@) == s@.subrange(i as int, n as int));
    let mut j: usize = n;
    while j > i && white_space(s.get_char(j - 1))
        invariant
            n == s@.len(),
            i <= j <= n,
            trimmed(s@) == trim_end(s@.subrange(i as int, j as int)),
        decreases j - i,
    {
        assert(s@.subrange(i as int, j as int).drop_last() =~= s@.subrange(i as int, j - 1));
        j = j - 1;
    }
    String::from_str(s.substring_char(i, j))
}

/// Two first positions of the token are one and the same.
proof fn lemma_first_token_unique(s: Seq<char>, i: int, j: int)
    requires
        first_token_at(s, i),
        first_token_at(s, j),
    ensures
        i == j,
{
}

/// Position of the first token in `s`, if any.
pub fn find_placeholder(s: &str) -> (r: Option<usize>)
    ensures
        match r {
            Some(i) => first_token_at(s@, i as int),
            None => !has_token(s@),
        },
{
    let n = s.unicode_len();
    if n < 2 {
        return None;
    }
    let mut i: usize = 0;
    while i + 1 < n
        invariant
            n == s@.len(),
            n >= 2,
            i + 1 <= n,
            forall|j: int| 0 <= j < i ==> !token_at(s@, j),
        decreases n - i,
    {
        if s.get_char(i) == '{' && s.get_char(i + 1) == '}' {
            return Some(i);
        }
        i = i + 1;
    }
    assert forall|j: int| !token_at(s@, j) by {
        if 0 <= j < i {
        }
    }
    None
}

/// Whether `s` still holds the token.
pub fn has_placeholder(s: &str) -> (r: bool)
    ensures
        r == has_token(s@),
{
    match find_placeholder(s) {
        Some(_) => true,
        None => false,
    }
}

/// `cmd` with its first token replaced by `value`; `cmd` unchanged when it
/// holds none.
pub fn substitute_first(cmd: &str, value: &str) -> (r: String)
    ensures
        r@ == replace_first(cmd@, value@),
{
    match find_placeholder(cmd) {
        None => String::from_str(cmd),
        Some(i) => {
            let n = cmd.unicode_len();
            let head = String::from_str(cmd.substring_char(0, i));
            let with_value = head.concat(value);
            let r = with_value.concat(cmd.substring_char(i + 2, n));
            proof {
                let k = choose|k: int| first_token_at(cmd@, k);
                lemma_first_token_unique(cmd@, i as int, k);
            }
            r
        }
    }
}

/// `cmd` with its first token replaced by the line that was entered for it,
/// trimmed of surrounding whitespace.
pub fn resolve_placeholder(cmd: &str, line: &str) -> (r: String)
    ensures
        r@ == replace_first(cmd@, trimmed(line@)),
{
    let value = trim_line(line);
    substitute_first(cmd, value.as_str())
}

} // verus!
