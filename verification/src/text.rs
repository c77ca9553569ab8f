use vstd::prelude::*;

verus! {

/// Tells whether two texts hold the same characters.
pub fn same_text(a: &str, b: &str) -> (r: bool)
    ensures
        r == (a@ == b@),
{
    String::from_str(a) == String::from_str(b)
}

/// Calls `Iterator::collect` of std on the characters of a vector. The
/// contract says that the text holds those characters, in their order.
#[verifier::external_body]
pub(crate) fn string_of(chars: &Vec<char>) -> (r: String)
    ensures
        r@ == chars@,
{
    chars.iter().collect()
}

/// Whether `c` is one of the white-space characters of ASCII.
pub open spec fn is_space(c: char) -> bool {
    c == ' ' || c == '\t' || c == '\n' || c == '\r'
}

/// Whether `c` is an ASCII digit.
pub open spec fn is_digit(c: char) -> bool {
    '0' <= c && c <= '9'
}

/// Whether `c` is an ASCII letter or digit.
pub open spec fn is_alnum(c: char) -> bool {
    ('a' <= c && c <= 'z') || ('A' <= c && c <= 'Z') || is_digit(c)
}

/// Whether `c` may stand in an identifier: a letter, a digit or `_`.
pub open spec fn is_word(c: char) -> bool {
    is_alnum(c) || c == '_'
}

/// The upper-case form of an ASCII lower-case letter; any other character
/// is left as it is.
pub open spec fn upper_of(c: char) -> char {
    if 'a' <= c && c <= 'z' {
        ((c as u8) - 32) as char
    } else {
        c
    }
}

/// Whether a text holds nothing but white space.
pub open spec fn blank(s: Seq<char>) -> bool {
    forall|i: int| 0 <= i < s.len() ==> is_space(#[trigger] s[i])
}

/// Tells whether a text holds nothing but white space.
pub fn is_blank(s: &str) -> (r: bool)
    ensures
        r == blank(s@),
{
    let mut all: bool = true;
    for c in it: s.chars()
        invariant
            it.seq() == s@,
            all == (forall|i: int| 0 <= i < it.index() ==> is_space(#[trigger] s@[i])),
    {
        if !(c == ' ' || c == '\t' || c == '\n' || c == '\r') {
            all = false;
        }
    }
    all
}

fn digit_char(c: char) -> (r: bool)
    ensures
        r == is_digit(c),
{
    '0' <= c && c <= '9'
}

fn alnum_char(c: char) -> (r: bool)
    ensures
        r == is_alnum(c),
{
    ('a' <= c && c <= 'z') || ('A' <= c && c <= 'Z') || digit_char(c)
}

fn to_upper(c: char) -> (r: char)
    ensures
        r == upper_of(c),
{
    if 'a' <= c && c <= 'z' {
        ((c as u8) - 32) as char
    } else {
        c
    }
}

/// The words of `s` from position `i` on, joined, each with its first
/// letter in upper case. A word is a run of letters and digits; `start`
/// says whether position `i` begins a word.
pub open spec fn pascal_from(s: Seq<char>, i: int, start: bool) -> Seq<char>
    decreases s.len() - i,
{
    if i < 0 || i >= s.len() {
        Seq::empty()
    } else if !is_alnum(s[i]) {
        pascal_from(s, i + 1, true)
    } else {
        seq![if start { upper_of(s[i]) } else { s[i] }] + pascal_from(s, i + 1, false)
    }
}

/// A name in Pascal case: the words of `s` joined, each capitalised.
pub open spec fn pascal(s: Seq<char>) -> Seq<char> {
    pascal_from(s, 0, true)
}

/// The name of a declared type made from the source name `s`: its Pascal
/// case, with `T` put in front where that is empty or begins with a digit.
pub open spec fn declared_name(s: Seq<char>) -> Seq<char> {
    let p = pascal(s);
    if p.len() == 0 || is_digit(p[0]) {
        "T"@ + p
    } else {
        p
    }
}

/// Puts a name into Pascal case.
pub fn pascal_case(s: &str) -> (r: String)
    ensures
        r@ == pascal(s@),
{
    let mut out: Vec<char> = Vec::new();
    let mut start: bool = true;
    for c in it: s.chars()
        invariant
            it.seq() == s@,
            pascal(s@) == out@ + pascal_from(s@, it.index() as int, start),
    {
        let ghost before = out@;
        let ghost i = it.index() as int;
        if alnum_char(c) {
            let d = if start { to_upper(c) } else { c };
            out.push(d);
            assert(out@ + pascal_from(s@, i + 1, false) =~= before + pascal_from(s@, i, start));
            start = false;
        } else {
            start = true;
        }
    }
    assert(out@ + Seq::<char>::empty() =~= out@);
    string_of(&out)
}

/// Makes the name of a declared type from a source name.
pub fn make_declared_name(s: &str) -> (r: String)
    ensures
        r@ == declared_name(s@),
{
    let p = pascal_case(s);
    if p.as_str().unicode_len() == 0 || digit_char(p.as_str().get_char(0)) {
        String::from_str("T").concat(p.as_str())
    } else {
        p
    }
}

/// Whether `c` parts the directories of a path: `/` or `\`.
pub open spec fn is_separator(c: char) -> bool {
    c == '/' || c == '\\'
}

/// The last part of the path `s`, read from position `i` on, where `part`
/// holds what was read of the current part.
pub open spec fn last_part_from(s: Seq<char>, i: int, part: Seq<char>) -> Seq<char>
    decreases s.len() - i,
{
    if i < 0 || i >= s.len() {
        part
    } else if is_separator(s[i]) {
        last_part_from(s, i + 1, Seq::empty())
    } else {
        last_part_from(s, i + 1, part.push(s[i]))
    }
}

/// The name of a file without its directories: what stands behind the last
/// `/` or `\` of its path.
pub open spec fn file_name(path: Seq<char>) -> Seq<char> {
    last_part_from(path, 0, Seq::empty())
}

/// The name of a file without its directories.
pub fn file_name_of(path: &str) -> (r: String)
    ensures
        r@ == file_name(path@),
{
    let mut part: Vec<char> = Vec::new();
    for c in it: path.chars()
        invariant
            it.seq() == path@,
            file_name(path@) == last_part_from(path@, it.index() as int, part@),
    {
        if c == '/' || c == '\\' {
            part = Vec::new();
        } else {
            part.push(c);
        }
    }
    string_of(&part)
}

/// The character of the digit `d`.
pub open spec fn digit_of(d: nat) -> char {
    ((48 + d) as u8) as char
}

/// The decimal numeral of `n`, without leading zeros.
pub open spec fn decimal(n: nat) -> Seq<char>
    decreases n,
{
    if n < 10 {
        seq![digit_of(n)]
    } else {
        decimal(n / 10).push(digit_of(n % 10))
    }
}

/// Appends the decimal numeral of `n` to `out`.
pub fn push_decimal(n: u128, out: &mut Vec<char>)
    ensures
        final(out)@ == old(out)@ + decimal(n as nat),
    decreases n,
{
    if n >= 10 {
        push_decimal(n / 10, out);
    }
    let d: u8 = (n % 10) as u8;
    out.push((48 + d) as char);
    assert(final(out)@ =~= old(out)@ + decimal(n as nat));
}

/// The decimal numeral of `n` as a text.
pub fn decimal_string(n: u128) -> (r: String)
    ensures
        r@ == decimal(n as nat),
{
    let mut digits: Vec<char> = Vec::new();
    push_decimal(n, &mut digits);
    assert(digits@ =~= decimal(n as nat));
    string_of(&digits)
}

/// Whether `s` is a word that Rust keeps for itself, so that it cannot name
/// a member as it stands.
pub open spec fn is_keyword(s: Seq<char>) -> bool {
    s == "_"@ || s == "as"@ || s == "break"@ || s == "const"@ || s == "continue"@ || s == "crate"@
        || s == "else"@ || s == "enum"@ || s == "extern"@ || s == "false"@ || s == "fn"@ || s
        == "for"@ || s == "if"@ || s == "impl"@ || s == "in"@ || s == "let"@ || s == "loop"@ || s
        == "match"@ || s == "mod"@ || s == "move"@ || s == "mut"@ || s == "pub"@ || s == "ref"@
        || s == "return"@ || s == "self"@ || s == "Self"@ || s == "static"@ || s == "struct"@ || s
        == "super"@ || s == "trait"@ || s == "true"@ || s == "type"@ || s == "unsafe"@ || s
        == "use"@ || s == "where"@ || s == "while"@ || s == "async"@ || s == "await"@ || s
        == "dyn"@ || s == "abstract"@ || s == "become"@ || s == "box"@ || s == "do"@ || s
        == "final"@ || s == "macro"@ || s == "override"@ || s == "priv"@ || s == "typeof"@ || s
        == "unsized"@ || s == "virtual"@ || s == "yield"@ || s == "try"@ || s == "gen"@
}

fn keyword(s: &str) -> (r: bool)
    ensures
        r == is_keyword(s@),
{
    same_text(s, "_") || same_text(s, "as") || same_text(s, "break") || same_text(s, "const")
        || same_text(s, "continue") || same_text(s, "crate") || same_text(s, "else") || same_text(
        s,
        "enum",
    ) || same_text(s, "extern") || same_text(s, "false") || same_text(s, "fn") || same_text(
        s,
        "for",
    ) || same_text(s, "if") || same_text(s, "impl") || same_text(s, "in") || same_text(s, "let")
        || same_text(s, "loop") || same_text(s, "match") || same_text(s, "mod") || same_text(
        s,
        "move",
    ) || same_text(s, "mut") || same_text(s, "pub") || same_text(s, "ref") || same_text(
        s,
        "return",
    ) || same_text(s, "self") || same_text(s, "Self") || same_text(s, "static") || same_text(
        s,
        "struct",
    ) || same_text(s, "super") || same_text(s, "trait") || same_text(s, "true") || same_text(
        s,
        "type",
    ) || same_text(s, "unsafe") || same_text(s, "use") || same_text(s, "where") || same_text(
        s,
        "while",
    ) || same_text(s, "async") || same_text(s, "await") || same_text(s, "dyn") || same_text(
        s,
        "abstract",
    ) || same_text(s, "become") || same_text(s, "box") || same_text(s, "do") || same_text(
        s,
        "final",
    ) || same_text(s, "macro") || same_text(s, "override") || same_text(s, "priv") || same_text(
        s,
        "typeof",
    ) || same_text(s, "unsized") || same_text(s, "virtual") || same_text(s, "yield") || same_text(
        s,
        "try",
    ) || same_text(s, "gen")
}

/// `c` where it may stand in an identifier, `_` in its place where not.
pub open spec fn word_char(c: char) -> char {
    if is_word(c) {
        c
    } else {
        '_'
    }
}

/// The name of a member made from the source name `s`: every character that
/// cannot stand in an identifier becomes `_`; `_` is put in front where the
/// result is empty or begins with a digit, and then behind where it is a
/// word that Rust keeps for itself.
pub open spec fn member_name(s: Seq<char>) -> Seq<char> {
    let m = s.map_values(|c: char| word_char(c));
    let n = if m.len() == 0 || is_digit(m[0]) {
        "_"@ + m
    } else {
        m
    };
    if is_keyword(n) {
        n + "_"@
    } else {
        n
    }
}

/// Puts `_` in the place of every character that cannot stand in an
/// identifier.
pub fn make_words(s: &str) -> (r: String)
    ensures
        r@ == s@.map_values(|c: char| word_char(c)),
{
    let mut out: Vec<char> = Vec::new();
    for c in it: s.chars()
        invariant
            it.seq() == s@,
            out@.len() == it.index(),
            forall|j: int| 0 <= j < out@.len() ==> out@[j] == word_char(#[trigger] s@[j]),
    {
        if alnum_char(c) || c == '_' {
            out.push(c);
        } else {
            out.push('_');
        }
    }
    assert(out@ =~= s@.map_values(|c: char| word_char(c)));
    string_of(&out)
}

/// Makes the name of a member from a source name.
pub fn make_member_name(s: &str) -> (r: String)
    ensures
        r@ == member_name(s@),
{
    let m = make_words(s);
    let n = if m.as_str().unicode_len() == 0 || digit_char(m.as_str().get_char(0)) {
        String::from_str("_").concat(m.as_str())
    } else {
        m
    };
    if keyword(n.as_str()) {
        n.concat("_")
    } else {
        n
    }
}

} // verus!
