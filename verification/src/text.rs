//! Character-level utilities shared by the template and request modules:
//! template-marker detection, `name:value` splitting, ASCII case mapping,
//! and decimal rendering of indices.

use vstd::prelude::*;

verus! {

/// Text equality, through `String`'s specified comparison.
pub fn str_equal(a: &str, b: &str) -> (r: bool)
    ensures
        r == (a@ == b@),
{
    a.to_owned() == b.to_owned()
}

/// A position `i` in `s` opens a template construct: `{{`, `{%` or `{#`.
pub open spec fn opens_marker(s: Seq<char>, i: int) -> bool {
    0 <= i && i + 1 < s.len() && s[i] == '{' && (s[i + 1] == '{' || s[i + 1] == '%' || s[i + 1]
        == '#')
}

/// The text contains a template construct somewhere.
pub open spec fn has_markers(s: Seq<char>) -> bool {
    exists|i: int| opens_marker(s, i)
}

/// Whether a character belongs to the regular-expression word class
/// `\w`, Unicode-aware: letters, marks, decimal digits, connector
/// punctuation and join controls. A function of the character alone.
pub uninterp spec fn unicode_word_char(c: char) -> bool;

/// Relies on the regex crate's Unicode-aware `\w` class: ASCII letters,
/// digits and the underscore belong to it; the colon, the newline and the
/// hyphen do not (they are neither letters, marks, digits, connector
/// punctuation nor join controls).
#[verifier::external_body]
fn word_char(c: char) -> (r: bool)
    ensures
        r == unicode_word_char(c),
        (('a' <= c && c <= 'z') || ('A' <= c && c <= 'Z') || ('0' <= c && c <= '9') || c == '_')
            ==> r,
        c == ':' ==> !r,
        c == '\n' ==> !r,
        c == '-' ==> !r,
{
    match regex::Regex::new("^\\w$") {
        Ok(re) => re.is_match(c.to_string().as_str()),
        Err(_) => false,
    }
}

/// A character the `name` part of a `name:value` argument may hold: a
/// Unicode word character or the hyphen. The word class holds neither the
/// colon nor the newline; excluding them here as well keeps the split
/// positions' reasoning self-contained.
pub open spec fn is_name_char(c: char) -> bool {
    (unicode_word_char(c) && c != ':' && c != '\n') || c == '-'
}

/// Whether the name part may hold `c`.
fn is_name_char_exec(c: char) -> (r: bool)
    ensures
        r == is_name_char(c),
{
    if c == '-' {
        true
    } else {
        word_char(c)
    }
}

/// `s` splits as `name:value` at position `i`: a non-empty run of name
/// characters, then a colon, then a value free of newlines — the shape the
/// anchored pattern `[\w-]+` name, colon, dot-star value accepts, where
/// the dot never matches a newline.
pub open spec fn is_pair_split(s: Seq<char>, i: int) -> bool {
    &&& 0 < i < s.len()
    &&& s[i] == ':'
    &&& (forall|j: int| 0 <= j < i ==> is_name_char(#[trigger] s[j]))
    &&& (forall|j: int| i < j < s.len() ==> (#[trigger] s[j]) != '\n')
}

/// `s` is a well-formed `name:value` argument.
pub open spec fn is_pair(s: Seq<char>) -> bool {
    exists|i: int| is_pair_split(s, i)
}

/// Splits a `name:value` argument at its first colon; `None` when the text
/// does not have the shape of a non-empty word-character-or-hyphen name, a
/// colon and a newline-free value.
#[verifier::loop_isolation(false)]
pub fn split_pair(s: &str) -> (r: Option<(String, String)>)
    ensures
        r is Some <==> is_pair(s@),
        r matches Some((n, v)) ==> {
            let i = n@.len() as int;
            &&& is_pair_split(s@, i)
            &&& n@ == s@.subrange(0, i)
            &&& v@ == s@.subrange(i + 1, s@.len() as int)
        },
{
    let len: usize = s.unicode_len();
    let mut i: usize = 0;
    while i < len
        invariant
            len == s@.len(),
            0 <= i <= len,
            forall|j: int| 0 <= j < i ==> is_name_char(#[trigger] s@[j]),
            forall|j: int| 0 <= j < i ==> (#[trigger] s@[j]) != ':',
        decreases len - i,
    {
        let c = s.get_char(i);
        if c == ':' {
            if i == 0 {
                assert(forall|k: int| !is_pair_split(s@, k));
                return None;
            }
            let mut j: usize = i + 1;
            while j < len
                invariant
                    i < j <= len,
                    forall|k: int| i < k < j ==> (#[trigger] s@[k]) != '\n',
                decreases len - j,
            {
                if s.get_char(j) == '\n' {
                    assert(forall|k: int| !is_pair_split(s@, k)) by {
                        assert forall|k: int| !is_pair_split(s@, k) by {
                            if is_pair_split(s@, k) {
                                if k < i {
                                    assert(s@[k] == ':');
                                } else if k == i {
                                    assert(s@[j as int] != '\n');
                                } else {
                                    assert(is_name_char(s@[i as int]));
                                }
                            }
                        }
                    }
                    return None;
                }
                j = j + 1;
            }
            let name = s.substring_char(0, i).to_owned();
            let value = s.substring_char(i + 1, len).to_owned();
            assert(is_pair_split(s@, i as int));
            return Some((name, value));
        }
        if !is_name_char_exec(c) {
            assert(forall|k: int| !is_pair_split(s@, k)) by {
                assert forall|k: int| !is_pair_split(s@, k) by {
                    if is_pair_split(s@, k) {
                        if k > i {
                            assert(is_name_char(s@[i as int]));
                        } else if k == i {
                            assert(s@[i as int] == ':');
                        } else {
                            assert(s@[k] == ':');
                        }
                    }
                }
            }
            return None;
        }
        i = i + 1;
    }
    assert(forall|k: int| !is_pair_split(s@, k));
    None
}

/// ASCII lower-case letters map to upper case; all else is unchanged.
pub open spec fn upper_char(c: char) -> char {
    if 'a' <= c && c <= 'z' {
        ((c as u8) - 32) as char
    } else {
        c
    }
}

/// ASCII upper-case letters map to lower case; all else is unchanged.
pub open spec fn lower_char(c: char) -> char {
    if 'A' <= c && c <= 'Z' {
        ((c as u8) + 32) as char
    } else {
        c
    }
}

/// `s` consists of ASCII characters only.
pub open spec fn ascii_only(s: Seq<char>) -> bool {
    forall|i: int| 0 <= i < s.len() ==> (#[trigger] s[i]) < 128 as char
}

/// Relies on str::to_uppercase; on ASCII text it maps each letter to its
/// upper-case form and keeps everything else, per its documentation.
#[verifier::external_body]
pub fn ascii_upper(s: &str) -> (r: String)
    ensures
        ascii_only(s@) ==> r@ == s@.map_values(|c: char| upper_char(c)),
{
    s.to_uppercase()
}

/// `needle` occurs inside `hay` at `i` when letters are compared without
/// regard to ASCII case; `needle` itself is lower case.
pub open spec fn ci_occurs_at(hay: Seq<char>, needle: Seq<char>, i: int) -> bool {
    0 <= i && i + needle.len() <= hay.len() && (forall|j: int|
        0 <= j < needle.len() ==> lower_char(hay[i + j]) == #[trigger] needle[j])
}

/// `needle` occurs somewhere inside `hay`, compared without regard to
/// ASCII case.
pub open spec fn ci_has_substring(hay: Seq<char>, needle: Seq<char>) -> bool {
    exists|i: int| ci_occurs_at(hay, needle, i)
}

/// The lower-case form of one character.
fn lower_char_exec(c: char) -> (r: char)
    ensures
        r == lower_char(c),
{
    let u = c as u32;
    if 65 <= u && u <= 90 {
        ((c as u8) + 32) as char
    } else {
        c
    }
}

/// Substring search without regard to ASCII case; the content-type
/// classifier matches its keywords this way.
#[verifier::loop_isolation(false)]
pub fn contains_ci(hay: &str, needle: &str) -> (r: bool)
    ensures
        r == ci_has_substring(hay@, needle@),
{
    let hlen: usize = hay.unicode_len();
    let nlen: usize = needle.unicode_len();
    if nlen > hlen {
        assert(forall|i: int| !ci_occurs_at(hay@, needle@, i));
        return false;
    }
    let mut i: usize = 0;
    while i <= hlen - nlen
        invariant
            hlen == hay@.len(),
            nlen == needle@.len(),
            nlen <= hlen,
            0 <= i <= hlen - nlen + 1,
            forall|k: int| 0 <= k < i ==> !ci_occurs_at(hay@, needle@, k),
        decreases hlen + 1 - nlen - i,
    {
        let mut j: usize = 0;
        let mut all_eq: bool = true;
        while j < nlen
            invariant
                i + nlen <= hlen,
                0 <= j <= nlen,
                all_eq <==> (forall|k: int|
                    0 <= k < j ==> lower_char(hay@[i + k]) == #[trigger] needle@[k]),
            decreases nlen - j,
        {
            let hc = lower_char_exec(hay.get_char(i + j));
            let nc = needle.get_char(j);
            if hc != nc {
                all_eq = false;
                j = nlen;
            } else {
                j = j + 1;
            }
        }
        if all_eq {
            assert(ci_occurs_at(hay@, needle@, i as int));
            return true;
        }
        assert(!ci_occurs_at(hay@, needle@, i as int));
        i = i + 1;
    }
    assert(forall|k: int| k >= i ==> !ci_occurs_at(hay@, needle@, k));
    false
}

/// Prefixes chain: a prefix of a prefix is a prefix.
pub proof fn lemma_prefix_transitive(a: Seq<char>, b: Seq<char>, c: Seq<char>)
    requires
        a.is_prefix_of(b),
        b.is_prefix_of(c),
    ensures
        a.is_prefix_of(c),
{
    assert(a =~= c.subrange(0, a.len() as int));
}

/// The decimal digit character for `d`.
pub open spec fn digit_char(d: int) -> char {
    ((48 + d) as u8) as char
}

/// The decimal rendering of `n`, most significant digit first.
pub open spec fn dec_str(n: nat) -> Seq<char>
    decreases n,
{
    if n < 10 {
        seq![digit_char(n as int)]
    } else {
        dec_str(n / 10) + seq![digit_char((n % 10) as int)]
    }
}

/// The single-character text for decimal digit `d`.
pub fn digit_str(d: usize) -> (r: &'static str)
    requires
        d < 10,
    ensures
        r@ =~= seq![digit_char(d as int)],
{
    proof {
        reveal_strlit("0");
        reveal_strlit("1");
        reveal_strlit("2");
        reveal_strlit("3");
        reveal_strlit("4");
        reveal_strlit("5");
        reveal_strlit("6");
        reveal_strlit("7");
        reveal_strlit("8");
        reveal_strlit("9");
    }
    if d == 0 {
        "0"
    } else if d == 1 {
        "1"
    } else if d == 2 {
        "2"
    } else if d == 3 {
        "3"
    } else if d == 4 {
        "4"
    } else if d == 5 {
        "5"
    } else if d == 6 {
        "6"
    } else if d == 7 {
        "7"
    } else {
        if d == 8 {
            "8"
        } else {
            "9"
        }
    }
}

/// Renders `n` in decimal, as template names for array elements need.
pub fn usize_to_string(n: usize) -> (r: String)
    ensures
        r@ == dec_str(n as nat),
    decreases n,
{
    if n < 10 {
        digit_str(n).to_owned()
    } else {
        let prefix = usize_to_string(n / 10);
        let r = prefix.concat(digit_str(n % 10));
        assert(r@ =~= dec_str(n as nat));
        r
    }
}

} // verus!
