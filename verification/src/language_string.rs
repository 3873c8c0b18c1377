//! Language codes and single language-tagged strings.

use vstd::prelude::*;
use crate::error::RestApiError;

verus! {

/// True for the whitespace the language-code sanitizer strips.
pub open spec fn is_ws(c: char) -> bool {
    c == ' ' || c == '\t' || c == '\n' || c == '\r'
}

/// The sequence without its leading whitespace.
pub open spec fn trim_front(s: Seq<char>) -> Seq<char>
    decreases s.len(),
{
    if s.len() > 0 && is_ws(s[0]) {
        trim_front(s.drop_first())
    } else {
        s
    }
}

/// The sequence without its trailing whitespace.
pub open spec fn trim_back(s: Seq<char>) -> Seq<char>
    decreases s.len(),
{
    if s.len() > 0 && is_ws(s.last()) {
        trim_back(s.drop_last())
    } else {
        s
    }
}

/// The ASCII-lowercased counterpart of one character.
pub open spec fn spec_lower(c: char) -> char {
    if c == 'A' {
        'a'
    } else if c == 'B' {
        'b'
    } else if c == 'C' {
        'c'
    } else if c == 'D' {
        'd'
    } else if c == 'E' {
        'e'
    } else if c == 'F' {
        'f'
    } else if c == 'G' {
        'g'
    } else if c == 'H' {
        'h'
    } else if c == 'I' {
        'i'
    } else if c == 'J' {
        'j'
    } else if c == 'K' {
        'k'
    } else if c == 'L' {
        'l'
    } else if c == 'M' {
        'm'
    } else if c == 'N' {
        'n'
    } else if c == 'O' {
        'o'
    } else if c == 'P' {
        'p'
    } else if c == 'Q' {
        'q'
    } else if c == 'R' {
        'r'
    } else if c == 'S' {
        's'
    } else if c == 'T' {
        't'
    } else if c == 'U' {
        'u'
    } else if c == 'V' {
        'v'
    } else if c == 'W' {
        'w'
    } else if c == 'X' {
        'x'
    } else if c == 'Y' {
        'y'
    } else if c == 'Z' {
        'z'
    } else {
        c
    }
}

/// The sequence with every character ASCII-lowercased.
pub open spec fn spec_lower_all(s: Seq<char>) -> Seq<char> {
    Seq::new(s.len(), |i: int| spec_lower(s[i]))
}

/// True for a lower-case ASCII letter.
pub open spec fn is_lower(c: char) -> bool {
    'a' as u32 <= c as u32 && c as u32 <= 'z' as u32
}

/// True for a character allowed after the first two of a language code:
/// a lower-case letter, a digit, or a hyphen.
pub open spec fn is_lang_char(c: char) -> bool {
    is_lower(c) || ('0' as u32 <= c as u32 && c as u32 <= '9' as u32) || c == '-'
}

/// A valid language code: two lower-case letters, then letters, digits
/// and hyphens.
pub open spec fn valid_language(s: Seq<char>) -> bool {
    s.len() >= 2 && is_lower(s[0]) && is_lower(s[1]) && forall|i: int|
        2 <= i < s.len() ==> is_lang_char(#[trigger] s[i])
}

/// What the sanitizer makes of raw input: trimmed, then lowercased.
pub open spec fn sanitized(s: Seq<char>) -> Seq<char> {
    spec_lower_all(trim_back(trim_front(s)))
}

/// A validated language code.
#[derive(Debug, Clone, PartialEq)]
pub struct Language {
    pub code: String,
}

/// ASCII-lowercases one character.
fn lower_char(c: char) -> (r: char)
    ensures
        r == spec_lower(c),
{
    let u = c as u32;
    if 65 <= u && u <= 90 {
        proof {
            vstd::utf8::char_u32_cast(c, c as u32);
            vstd::utf8::char_u32_cast('Z', 'Z' as u32);
        }
        match c {
            'A' => 'a',
            'B' => 'b',
            'C' => 'c',
            'D' => 'd',
            'E' => 'e',
            'F' => 'f',
            'G' => 'g',
            'H' => 'h',
            'I' => 'i',
            'J' => 'j',
            'K' => 'k',
            'L' => 'l',
            'M' => 'm',
            'N' => 'n',
            'O' => 'o',
            'P' => 'p',
            'Q' => 'q',
            'R' => 'r',
            'S' => 's',
            'T' => 't',
            'U' => 'u',
            'V' => 'v',
            'W' => 'w',
            'X' => 'x',
            'Y' => 'y',
            _ => 'z',
        }
    } else {
        c
    }
}

impl Language {
    /// Validates a language code, after trimming whitespace and
    /// lowercasing: it must be two lower-case letters followed by
    /// letters, digits and hyphens.
    pub fn try_new(s: &str) -> (r: Result<Language, RestApiError>)
        ensures
            match r {
                Ok(l) => l.code@ == sanitized(s@) && valid_language(l.code@),
                Err(_) => !valid_language(sanitized(s@)),
            },
    {
        let n = s.unicode_len();
        // find the trimmed range
        let mut lo: usize = 0;
        while lo < n && is_ws_exec(s.get_char(lo))
            invariant
                0 <= lo <= n,
                n == s@.len(),
                forall|i: int| 0 <= i < lo ==> is_ws(#[trigger] s@[i]),
            decreases n - lo,
        {
            lo = lo + 1;
        }
        let mut hi: usize = n;
        while hi > lo && is_ws_exec(s.get_char(hi - 1))
            invariant
                lo <= hi <= n,
                n == s@.len(),
                forall|i: int| 0 <= i < lo ==> is_ws(#[trigger] s@[i]),
                lo < n ==> !is_ws(s@[lo as int]),
                forall|i: int| hi <= i < n ==> is_ws(#[trigger] s@[i]),
            decreases hi,
        {
            hi = hi - 1;
        }
        proof {
            lemma_trim_range(s@, lo as int, hi as int);
        }
        // lowercase the trimmed middle
        let mut code = String::new();
        let mut i: usize = lo;
        while i < hi
            invariant
                lo <= i <= hi <= n,
                n == s@.len(),
                code@ =~= spec_lower_all(s@.subrange(lo as int, i as int)),
            decreases hi - i,
        {
            code.push(lower_char(s.get_char(i)));
            proof {
                assert(spec_lower_all(s@.subrange(lo as int, i as int + 1)) =~= spec_lower_all(
                    s@.subrange(lo as int, i as int),
                ).push(spec_lower(s@[i as int])));
            }
            i = i + 1;
        }
        proof {
            assert(code@ =~= sanitized(s@));
        }
        // validate
        let m = hi - lo;
        if m < 2 {
            return Err(RestApiError::UnknownValue(code));
        }
        let c0 = code.as_str().get_char(0);
        let c1 = code.as_str().get_char(1);
        if !is_lower_exec(c0) || !is_lower_exec(c1) {
            return Err(RestApiError::UnknownValue(code));
        }
        let mut i: usize = 2;
        while i < m
            invariant
                2 <= i <= m,
                m == code@.len(),
                code@ == sanitized(s@),
                forall|j: int| 2 <= j < i ==> is_lang_char(#[trigger] code@[j]),
            decreases m - i,
        {
            let c = code.as_str().get_char(i);
            if !is_lang_char_exec(c) {
                return Err(RestApiError::UnknownValue(code));
            }
            i = i + 1;
        }
        Ok(Language { code })
    }

    /// Returns the code as text.
    pub fn as_str(&self) -> (r: &str)
        ensures
            r@ == self.code@,
    {
        self.code.as_str()
    }
}

/// Over a range whose outside is all whitespace and whose edges are not,
/// trimming is taking that range.
proof fn lemma_trim_range(s: Seq<char>, lo: int, hi: int)
    requires
        0 <= lo <= hi <= s.len(),
        forall|i: int| 0 <= i < lo ==> is_ws(#[trigger] s[i]),
        forall|i: int| hi <= i < s.len() ==> is_ws(#[trigger] s[i]),
        lo < hi ==> !is_ws(s[lo]) && !is_ws(s[hi - 1]),
        lo == hi ==> hi == 0 || lo == s.len(),
    ensures
        trim_back(trim_front(s)) == s.subrange(lo, hi),
    decreases s.len(),
{
    if s.len() == 0 {
        assert(s.subrange(0, 0) =~= s);
    } else if is_ws(s[0]) {
        // the first character is trimmed away
        if lo > 0 {
            lemma_trim_range(s.drop_first(), lo - 1, hi - 1);
            assert(s.drop_first().subrange(lo - 1, hi - 1) =~= s.subrange(lo, hi));
        } else {
            // lo == 0 and s[0] is whitespace, so lo == hi == 0
            assert(lo == hi);
            assert(hi == 0);
            lemma_trim_range(s.drop_first(), 0, 0);
            assert(s.drop_first().subrange(0, 0) =~= s.subrange(0, 0));
        }
    } else {
        // nothing is trimmed at the front
        assert(lo == 0) by {
            if lo > 0 {
                assert(is_ws(s[0]));
            }
        }
        assert(trim_front(s) == s);
        if hi == s.len() {
            assert(!is_ws(s.last()));
            assert(trim_back(s) == s);
            assert(s.subrange(0, s.len() as int) =~= s);
        } else {
            assert(is_ws(s.last()));
            lemma_trim_range(s.drop_last(), 0, hi);
            lemma_trim_front_keeps(s.drop_last());
            assert(s.drop_last().subrange(0, hi) =~= s.subrange(lo, hi));
        }
    }
}

/// A sequence that does not start with whitespace trims to itself at the
/// front; an empty one as well.
proof fn lemma_trim_front_keeps(s: Seq<char>)
    requires
        s.len() == 0 || !is_ws(s[0]),
    ensures
        trim_front(s) == s,
{
}

/// Decides `is_ws`.
fn is_ws_exec(c: char) -> (r: bool)
    ensures
        r == is_ws(c),
{
    c == ' ' || c == '\t' || c == '\n' || c == '\r'
}

/// Decides `is_lower`.
fn is_lower_exec(c: char) -> (r: bool)
    ensures
        r == is_lower(c),
{
    let u = c as u32;
    97 <= u && u <= 122
}

/// Decides `is_lang_char`.
fn is_lang_char_exec(c: char) -> (r: bool)
    ensures
        r == is_lang_char(c),
{
    let u = c as u32;
    (97 <= u && u <= 122) || (48 <= u && u <= 57) || c == '-'
}

/// ASCII-lowercases a whole string.
pub fn lower_ascii(s: &str) -> (r: String)
    ensures
        r@ == spec_lower_all(s@),
{
    let n = s.unicode_len();
    let mut r = String::new();
    let mut i: usize = 0;
    while i < n
        invariant
            0 <= i <= n,
            n == s@.len(),
            r@ =~= spec_lower_all(s@.take(i as int)),
        decreases n - i,
    {
        r.push(lower_char(s.get_char(i)));
        proof {
            assert(spec_lower_all(s@.take(i as int + 1)) =~= spec_lower_all(
                s@.take(i as int),
            ).push(spec_lower(s@[i as int])));
        }
        i = i + 1;
    }
    proof {
        assert(s@.take(n as int) =~= s@);
        assert(r@ =~= spec_lower_all(s@));
    }
    r
}

/// The ASCII-uppercased counterpart of one character.
pub open spec fn spec_upper(c: char) -> char {
    if c == 'a' {
        'A'
    } else if c == 'b' {
        'B'
    } else if c == 'c' {
        'C'
    } else if c == 'd' {
        'D'
    } else if c == 'e' {
        'E'
    } else if c == 'f' {
        'F'
    } else if c == 'g' {
        'G'
    } else if c == 'h' {
        'H'
    } else if c == 'i' {
        'I'
    } else if c == 'j' {
        'J'
    } else if c == 'k' {
        'K'
    } else if c == 'l' {
        'L'
    } else if c == 'm' {
        'M'
    } else if c == 'n' {
        'N'
    } else if c == 'o' {
        'O'
    } else if c == 'p' {
        'P'
    } else if c == 'q' {
        'Q'
    } else if c == 'r' {
        'R'
    } else if c == 's' {
        'S'
    } else if c == 't' {
        'T'
    } else if c == 'u' {
        'U'
    } else if c == 'v' {
        'V'
    } else if c == 'w' {
        'W'
    } else if c == 'x' {
        'X'
    } else if c == 'y' {
        'Y'
    } else if c == 'z' {
        'Z'
    } else {
        c
    }
}

/// The sequence with every character ASCII-uppercased.
pub open spec fn spec_upper_all(s: Seq<char>) -> Seq<char> {
    Seq::new(s.len(), |i: int| spec_upper(s[i]))
}

/// ASCII-uppercases one character.
fn upper_char(c: char) -> (r: char)
    ensures
        r == spec_upper(c),
{
    let u = c as u32;
    if 97 <= u && u <= 122 {
        proof {
            vstd::utf8::char_u32_cast(c, c as u32);
            vstd::utf8::char_u32_cast('z', 'z' as u32);
        }
        match c {
            'a' => 'A',
            'b' => 'B',
            'c' => 'C',
            'd' => 'D',
            'e' => 'E',
            'f' => 'F',
            'g' => 'G',
            'h' => 'H',
            'i' => 'I',
            'j' => 'J',
            'k' => 'K',
            'l' => 'L',
            'm' => 'M',
            'n' => 'N',
            'o' => 'O',
            'p' => 'P',
            'q' => 'Q',
            'r' => 'R',
            's' => 'S',
            't' => 'T',
            'u' => 'U',
            'v' => 'V',
            'w' => 'W',
            'x' => 'X',
            'y' => 'Y',
            _ => 'Z',
        }
    } else {
        c
    }
}

/// ASCII-uppercases a whole string.
pub fn upper_ascii(s: &str) -> (r: String)
    ensures
        r@ == spec_upper_all(s@),
{
    let n = s.unicode_len();
    let mut r = String::new();
    let mut i: usize = 0;
    while i < n
        invariant
            0 <= i <= n,
            n == s@.len(),
            r@ =~= spec_upper_all(s@.take(i as int)),
        decreases n - i,
    {
        r.push(upper_char(s.get_char(i)));
        proof {
            assert(spec_upper_all(s@.take(i as int + 1)) =~= spec_upper_all(
                s@.take(i as int),
            ).push(spec_upper(s@[i as int])));
        }
        i = i + 1;
    }
    proof {
        assert(s@.take(n as int) =~= s@);
        assert(r@ =~= spec_upper_all(s@));
    }
    r
}

/// A language code together with one value in that language.
#[derive(Debug, Clone, PartialEq, Default)]
pub struct LanguageString {
    pub language: String,
    pub value: String,
}

impl LanguageString {
    /// Constructs a language string from a language code and a value.
    pub fn new(language: &str, value: &str) -> (r: LanguageString)
        ensures
            r.language@ == language@,
            r.value@ == value@,
    {
        LanguageString { language: language.to_owned(), value: value.to_owned() }
    }

    /// Returns the language code.
    pub fn language(&self) -> (r: &String)
        ensures
            r@ == self.language@,
    {
        &self.language
    }

    /// Returns the value.
    pub fn value(&self) -> (r: &String)
        ensures
            r@ == self.value@,
    {
        &self.value
    }
}

} // verus!
