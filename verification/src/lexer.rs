//! The tokenizer: scans an expression string left to right into
//! positioned tokens, skipping whitespace and reporting the byte offset
//! of any failure.

use vstd::prelude::*;
use vstd::string::{StrSliceExecFns, StringExecFns};

use crate::error::{matches_err, ErrSpec, Error, NumberError};

verus! {

/// One lexeme of the expression language.
#[derive(Debug, Clone, Copy, PartialEq, Eq, Structural)]
pub enum Token {
    Now,
    Value(u32),
    Add,
    Sub,
    Floor,
    Year,
    Month,
    Week,
    Day,
    Hour,
    Minute,
    Second,
}

/// The characters with the Unicode `White_Space` property; what
/// `char::is_whitespace` accepts.
pub open spec fn is_space_char(c: char) -> bool {
    let v = c as u32;
    ||| (0x9 <= v <= 0xD)
    ||| v == 0x20
    ||| v == 0x85
    ||| v == 0xA0
    ||| v == 0x1680
    ||| (0x2000 <= v <= 0x200A)
    ||| v == 0x2028
    ||| v == 0x2029
    ||| v == 0x202F
    ||| v == 0x205F
    ||| v == 0x3000
}

/// ASCII decimal digit.
pub open spec fn is_digit_char(c: char) -> bool {
    0x30 <= c as u32 <= 0x39
}

/// Numeric value of an ASCII digit.
pub open spec fn digit_of(c: char) -> int {
    c as u32 - 0x30
}

/// Number of bytes of the UTF-8 encoding of `c`.
pub open spec fn char_width(c: char) -> int {
    let v = c as u32;
    if v < 0x80 {
        1
    } else if v < 0x800 {
        2
    } else if v < 0x10000 {
        3
    } else {
        4
    }
}

/// Byte offset of the character at index `i`: the UTF-8 width of
/// everything before it.
pub open spec fn bytes_up_to(s: Seq<char>, i: int) -> int
    decreases i,
{
    if i <= 0 {
        0
    } else {
        bytes_up_to(s, i - 1) + char_width(s[i - 1])
    }
}

/// First index at or after `i` holding a non-whitespace character.
pub open spec fn ws_end(s: Seq<char>, i: int) -> int
    decreases s.len() - i,
        when 0 <= i <= s.len()
{
    if i == s.len() || !is_space_char(s[i]) {
        i
    } else {
        ws_end(s, i + 1)
    }
}

/// First index at or after `i` holding a non-digit character.
pub open spec fn digit_run_end(s: Seq<char>, i: int) -> int
    decreases s.len() - i,
        when 0 <= i <= s.len()
{
    if i == s.len() || !is_digit_char(s[i]) {
        i
    } else {
        digit_run_end(s, i + 1)
    }
}

/// Value of the decimal digit run `s[i..j]`.
pub open spec fn digits_val(s: Seq<char>, i: int, j: int) -> int
    decreases j - i,
        when i <= j
{
    if i >= j {
        0
    } else {
        digits_val(s, i, j - 1) * 10 + digit_of(s[j - 1])
    }
}

/// The token, if any, that a single character denotes.
pub open spec fn char_token(c: char) -> Option<Token> {
    if c == '/' {
        Some(Token::Floor)
    } else if c == '+' {
        Some(Token::Add)
    } else if c == '-' {
        Some(Token::Sub)
    } else if c == 'y' {
        Some(Token::Year)
    } else if c == 'M' {
        Some(Token::Month)
    } else if c == 'w' {
        Some(Token::Week)
    } else if c == 'd' {
        Some(Token::Day)
    } else if c == 'h' {
        Some(Token::Hour)
    } else if c == 'm' {
        Some(Token::Minute)
    } else if c == 's' {
        Some(Token::Second)
    } else {
        Option::None
    }
}

/// The sentinel character reported when the input ends in the middle of
/// the `now` literal.
pub open spec fn eot_char() -> char {
    '\u{3}'
}

/// Outcome of scanning for one token from character index `i`.
pub ghost enum ScanStep {
    /// Only whitespace remains.
    End,
    /// A token starting at byte offset `pos`; `next` is the character
    /// index just past it.
    Tok { pos: int, tok: Token, next: int },
    /// Scanning fails with this error.
    Fail { err: ErrSpec },
}

/// Scan one token from character index `i` of `s`: skip whitespace, then
/// classify by the first character. Digit runs form a 32-bit number, `n`
/// must begin the literal `now`, single characters map to operators and
/// units, and anything else is an unexpected character at its byte
/// offset.
pub open spec fn spec_scan(s: Seq<char>, i: int) -> ScanStep {
    let j = ws_end(s, i);
    if j >= s.len() {
        ScanStep::End
    } else {
        let c = s[j];
        let p = bytes_up_to(s, j);
        if is_digit_char(c) {
            let k = digit_run_end(s, j);
            let v = digits_val(s, j, k);
            if v <= u32::MAX {
                ScanStep::Tok { pos: p, tok: Token::Value(v as u32), next: k }
            } else {
                ScanStep::Fail { err: ErrSpec::Num { lit: s.subrange(j, k) } }
            }
        } else if c == 'n' {
            if j + 1 == s.len() {
                ScanStep::Fail { err: ErrSpec::Char { pos: bytes_up_to(s, j + 1), c: eot_char() } }
            } else if s[j + 1] != 'o' {
                ScanStep::Fail { err: ErrSpec::Char { pos: bytes_up_to(s, j + 1), c: s[j + 1] } }
            } else if j + 2 == s.len() {
                ScanStep::Fail { err: ErrSpec::Char { pos: bytes_up_to(s, j + 2), c: eot_char() } }
            } else if s[j + 2] != 'w' {
                ScanStep::Fail { err: ErrSpec::Char { pos: bytes_up_to(s, j + 2), c: s[j + 2] } }
            } else {
                ScanStep::Tok { pos: p, tok: Token::Now, next: j + 3 }
            }
        } else {
            match char_token(c) {
                Some(t) => ScanStep::Tok { pos: p, tok: t, next: j + 1 },
                Option::None => ScanStep::Fail { err: ErrSpec::Char { pos: p, c: c } },
            }
        }
    }
}

/// Byte offsets never decrease along the string.
pub proof fn lemma_bytes_mono(s: Seq<char>, i: int, j: int)
    requires
        i <= j,
    ensures
        bytes_up_to(s, i) <= bytes_up_to(s, j),
    decreases j - i,
{
    if i < j {
        lemma_bytes_mono(s, i, j - 1);
    }
}

/// An unrecognized character at the very start of the text is reported
/// as a character error carrying byte offset zero and exactly that
/// character.
pub proof fn lemma_unexpected_first_char(s: Seq<char>)
    requires
        s.len() > 0,
        !is_space_char(s[0]),
        !is_digit_char(s[0]),
        s[0] != 'n',
        char_token(s[0]) is None,
    ensures
        spec_scan(s, 0) == (ScanStep::Fail { err: ErrSpec::Char { pos: 0, c: s[0] } }),
{
}

/// A digit run whose value exceeds the unsigned 32-bit range is
/// reported as a number error carrying the run's text, never silently
/// wrapped.
pub proof fn lemma_number_too_large(s: Seq<char>, i: int)
    requires
        0 <= i <= s.len(),
        ws_end(s, i) < s.len(),
        is_digit_char(s[ws_end(s, i)]),
        digits_val(s, ws_end(s, i), digit_run_end(s, ws_end(s, i))) > u32::MAX,
    ensures
        spec_scan(s, i) == (ScanStep::Fail {
            err: ErrSpec::Num {
                lit: s.subrange(ws_end(s, i), digit_run_end(s, ws_end(s, i))),
            },
        }),
{
}

/// The end of a whitespace run lies between its start and the end of
/// the text.
pub proof fn lemma_ws_end_bounds(s: Seq<char>, i: int)
    requires
        0 <= i <= s.len(),
    ensures
        i <= ws_end(s, i) <= s.len(),
    decreases s.len() - i,
{
    if i < s.len() && is_space_char(s[i]) {
        lemma_ws_end_bounds(s, i + 1);
    }
}

/// A successful scan returns a token that ends strictly past where it
/// began, inside the text, at a representable byte offset.
pub proof fn lemma_scan_progress(s: Seq<char>, i: int)
    requires
        0 <= i <= s.len(),
    ensures
        match spec_scan(s, i) {
            ScanStep::Tok { pos, tok, next } => i < next <= s.len() && 0 <= pos,
            _ => true,
        },
{
    lemma_ws_end_bounds(s, i);
    let j = ws_end(s, i);
    if j < s.len() {
        lemma_bytes_mono(s, 0, j);
        if is_digit_char(s[j]) {
            lemma_digit_run_digits(s, j);
            assert(digit_run_end(s, j) == digit_run_end(s, j + 1));
            lemma_digit_run_digits(s, j + 1);
        }
    }
}

/// The width of a character equals the length of its UTF-8 encoding as
/// vstd defines it.
proof fn lemma_width_is_encoding_len(c: char)
    ensures
        char_width(c) == vstd::utf8::encode_scalar(c as u32).len(),
{
    vstd::utf8::char_is_scalar(c);
}

/// Byte offsets shift by the first character's width when it is dropped.
proof fn lemma_bytes_shift(s: Seq<char>, i: int)
    requires
        1 <= i <= s.len(),
    ensures
        bytes_up_to(s, i) == char_width(s[0]) + bytes_up_to(s.drop_first(), i - 1),
    decreases i,
{
    reveal_with_fuel(bytes_up_to, 3);
    if i > 1 {
        lemma_bytes_shift(s, i - 1);
        assert(s.drop_first()[i - 2] == s[i - 1]);
    }
}

/// The byte offset past the last character is the length of the UTF-8
/// encoding of the whole string.
proof fn lemma_bytes_total(s: Seq<char>)
    ensures
        bytes_up_to(s, s.len() as int) == vstd::utf8::encode_utf8(s).len(),
    decreases s.len(),
{
    if s.len() > 0 {
        lemma_width_is_encoding_len(s[0]);
        lemma_bytes_shift(s, s.len() as int);
        lemma_bytes_total(s.drop_first());
    }
}

/// Whether `c` has the Unicode `White_Space` property.
fn is_space_of(c: char) -> (r: bool)
    ensures
        r == is_space_char(c),
{
    let v = c as u32;
    (0x9 <= v && v <= 0xD) || v == 0x20 || v == 0x85 || v == 0xA0 || v == 0x1680 || (0x2000 <= v
        && v <= 0x200A) || v == 0x2028 || v == 0x2029 || v == 0x202F || v == 0x205F || v == 0x3000
}

/// Whether `c` is an ASCII decimal digit.
fn is_digit_of(c: char) -> (r: bool)
    ensures
        r == is_digit_char(c),
{
    let v = c as u32;
    0x30 <= v && v <= 0x39
}

/// Numeric value of an ASCII digit.
fn digit_val_of(c: char) -> (r: u32)
    requires
        is_digit_char(c),
    ensures
        r == digit_of(c),
{
    c as u32 - 0x30
}

/// Number of bytes of the UTF-8 encoding of `c`.
fn char_width_of(c: char) -> (r: u32)
    ensures
        r == char_width(c),
{
    let v = c as u32;
    if v < 0x80 {
        1
    } else if v < 0x800 {
        2
    } else if v < 0x10000 {
        3
    } else {
        4
    }
}

/// The one-character string holding the given digit.
fn digit_str(c: char) -> (r: &'static str)
    requires
        is_digit_char(c),
    ensures
        r@ == seq![c],
{
    if c == '0' {
        proof {
            reveal_strlit("0");
            assert("0"@ =~= seq![c]);
        }
        "0"
    } else if c == '1' {
        proof {
            reveal_strlit("1");
            assert("1"@ =~= seq![c]);
        }
        "1"
    } else if c == '2' {
        proof {
            reveal_strlit("2");
            assert("2"@ =~= seq![c]);
        }
        "2"
    } else if c == '3' {
        proof {
            reveal_strlit("3");
            assert("3"@ =~= seq![c]);
        }
        "3"
    } else if c == '4' {
        proof {
            reveal_strlit("4");
            assert("4"@ =~= seq![c]);
        }
        "4"
    } else if c == '5' {
        proof {
            reveal_strlit("5");
            assert("5"@ =~= seq![c]);
        }
        "5"
    } else if c == '6' {
        proof {
            reveal_strlit("6");
            assert("6"@ =~= seq![c]);
        }
        "6"
    } else if c == '7' {
        proof {
            reveal_strlit("7");
            assert("7"@ =~= seq![c]);
        }
        "7"
    } else if c == '8' {
        proof {
            reveal_strlit("8");
            assert("8"@ =~= seq![c]);
        }
        "8"
    } else {
        proof {
            reveal_strlit("9");
            assert(c == '9') by {
                vstd::utf8::char_u32_cast(c, c as u32);
                vstd::utf8::char_u32_cast('9', '9' as u32);
            }
            assert("9"@ =~= seq![c]);
        }
        "9"
    }
}

/// The characters of `text`, in order.
pub fn chars_of(text: &str) -> (v: Vec<char>)
    ensures
        v@ == text@,
{
    let n = text.unicode_len();
    let mut chars: Vec<char> = Vec::new();
    let mut i: usize = 0;
    while i < n
        invariant
            i <= n,
            n == text@.len(),
            chars@ == text@.subrange(0, i as int),
        decreases n - i,
    {
        chars.push(text.get_char(i));
        proof {
            assert(chars@ =~= text@.subrange(0, i + 1));
        }
        i = i + 1;
    }
    proof {
        assert(chars@ =~= text@);
    }
    chars
}

/// First index at or after `from` holding a non-whitespace character.
pub fn ws_end_of(chars: &Vec<char>, from: usize) -> (r: usize)
    requires
        from <= chars@.len(),
    ensures
        r == ws_end(chars@, from as int),
        from <= r <= chars@.len(),
    decreases chars@.len() - from,
{
    let n = chars.len();
    let mut i = from;
    while i < n && is_space_of(chars[i])
        invariant
            from <= i <= n,
            n == chars@.len(),
            ws_end(chars@, from as int) == ws_end(chars@, i as int),
        decreases n - i,
    {
        i = i + 1;
    }
    i
}

/// The tokenizer's cursor over the expression text.
pub struct Lexer {
    chars: Vec<char>,
    idx: usize,
    pos: usize,
    total: usize,
}

impl Lexer {
    /// The scanned text as a character sequence.
    pub closed spec fn text(&self) -> Seq<char> {
        self.chars@
    }

    /// The index of the next character to scan.
    pub closed spec fn cursor(&self) -> int {
        self.idx as int
    }

    /// The cursor is inside the text, the byte position matches it, and
    /// the stored total is the byte length of the whole text.
    pub closed spec fn wf(&self) -> bool {
        &&& self.idx <= self.chars@.len()
        &&& self.pos == bytes_up_to(self.chars@, self.idx as int)
        &&& self.total == bytes_up_to(self.chars@, self.chars@.len() as int)
    }

    /// The cursor of a well-formed scanner sits inside its text.
    pub proof fn lemma_cursor_in_text(&self)
        requires
            self.wf(),
        ensures
            0 <= self.cursor() <= self.text().len(),
    {
    }

    /// Byte length of the whole text.
    pub fn byte_len(&self) -> (r: usize)
        requires
            self.wf(),
        ensures
            r == bytes_up_to(self.text(), self.text().len() as int),
    {
        self.total
    }

    /// Start scanning at the beginning of `text`.
    pub fn new(text: &str) -> (r: Lexer)
        ensures
            r.wf(),
            r.text() == text@,
            r.cursor() == 0,
    {
        let chars = chars_of(text);
        let bytes = text.as_bytes();
        let total = bytes.len();
        proof {
            lemma_bytes_total(text@);
        }
        Lexer { chars, idx: 0, pos: 0, total }
    }

    /// Move the cursor past the current character.
    fn advance(&mut self)
        requires
            old(self).wf(),
            old(self).cursor() < old(self).text().len(),
        ensures
            final(self).wf(),
            final(self).text() == old(self).text(),
            final(self).cursor() == old(self).cursor() + 1,
            final(self).pos_at() == bytes_up_to(old(self).text(), old(self).cursor() + 1),
    {
        let n = self.chars.len();
        let c = self.chars[self.idx];
        proof {
            lemma_bytes_mono(self.chars@, self.idx + 1, self.chars@.len() as int);
        }
        self.pos = self.pos + char_width_of(c) as usize;
        self.idx = self.idx + 1;
    }

    /// The byte offset of the cursor.
    pub closed spec fn pos_at(&self) -> int {
        self.pos as int
    }

    /// Scan the next token. Returns `None` at the end of the text, the
    /// token with its starting byte offset, or the error that stops the
    /// scan, exactly as `spec_scan` describes.
    pub fn next(&mut self) -> (r: Option<Result<(usize, Token), Error>>)
        requires
            old(self).wf(),
        ensures
            final(self).wf(),
            final(self).text() == old(self).text(),
            match spec_scan(old(self).text(), old(self).cursor()) {
                ScanStep::End => r is None && final(self).cursor() == old(self).text().len(),
                ScanStep::Tok { pos, tok, next } => {
                    &&& 0 <= pos <= usize::MAX
                    &&& r == Some(Ok::<(usize, Token), Error>((pos as usize, tok)))
                    &&& final(self).cursor() == next
                },
                ScanStep::Fail { err } => r matches Some(re) && re matches Err(e) && matches_err(
                    e,
                    err,
                ),
            },
    {
        let ghost s = self.chars@;
        let ghost i0 = self.idx as int;
        let n = self.chars.len();
        while self.idx < n && is_space_of(self.chars[self.idx])
            invariant
                self.wf(),
                self.chars@ == s,
                n == s.len(),
                0 <= i0 <= self.idx as int,
                ws_end(s, i0) == ws_end(s, self.idx as int),
            decreases n - self.idx,
        {
            self.advance();
        }
        let ghost j = self.idx as int;
        proof {
            assert(ws_end(s, j) == j);
            assert(j == ws_end(s, i0));
        }
        if self.idx == n {
            return Option::None;
        }
        let c = self.chars[self.idx];
        let startpos = self.pos;
        if is_digit_of(c) {
            let start_idx = self.idx;
            let ghost start = self.idx as int;
            let mut v: u64 = 0;
            let mut over = false;
            while self.idx < n && is_digit_of(self.chars[self.idx])
                invariant
                    self.wf(),
                    self.chars@ == s,
                    n == s.len(),
                    0 <= start <= self.idx as int,
                    start_idx == start,
                    digit_run_end(s, start) == digit_run_end(s, self.idx as int),
                    !over ==> v == digits_val(s, start, self.idx as int) && v <= 42_949_672_959u64,
                    over ==> digits_val(s, start, self.idx as int) > u32::MAX,
                decreases n - self.idx,
            {
                let d = digit_val_of(self.chars[self.idx]);
                if v > 0xFFFF_FFFFu64 {
                    over = true;
                } else {
                    v = v * 10 + d as u64;
                }
                self.advance();
            }
            let end_idx = self.idx;
            let ghost end = self.idx as int;
            proof {
                assert(digit_run_end(s, end) == end);
                assert(end == digit_run_end(s, start));
                lemma_digit_run_digits(s, start);
            }
            if over || v > 0xFFFF_FFFFu64 {
                let mut lit = String::new();
                proof {
                    assert(lit@ =~= s.subrange(start, start));
                }
                let mut k = start_idx;
                while k < end_idx
                    invariant
                        0 <= start <= k as int <= end,
                        end <= s.len(),
                        end_idx as int == end,
                        self.chars@ == s,
                        forall|m: int| start <= m < end ==> is_digit_char(s[m]),
                        lit@ == s.subrange(start, k as int),
                    decreases end_idx - k,
                {
                    let piece = digit_str(self.chars[k]);
                    let ghost prev = lit@;
                    lit.append(piece);
                    proof {
                        assert(piece@ == seq![s[k as int]]);
                        assert(prev == s.subrange(start, k as int));
                        assert(lit@ == prev + piece@);
                        lemma_subrange_push(s, start, k as int);
                    }
                    k = k + 1;
                }
                proof {
                    assert(lit@ == s.subrange(start, end));
                }
                return Option::Some(Err(Error::InvalidNumber(lit, NumberError::TooLarge)));
            } else {
                return Option::Some(Ok((startpos, Token::Value(v as u32))));
            }
        } else if c == 'n' {
            self.advance();
            if self.idx == n {
                return Option::Some(Err(Error::UnexpectedCharacter(self.pos, '\u{3}')));
            }
            let c2 = self.chars[self.idx];
            if c2 != 'o' {
                return Option::Some(Err(Error::UnexpectedCharacter(self.pos, c2)));
            }
            self.advance();
            if self.idx == n {
                return Option::Some(Err(Error::UnexpectedCharacter(self.pos, '\u{3}')));
            }
            let c3 = self.chars[self.idx];
            if c3 != 'w' {
                return Option::Some(Err(Error::UnexpectedCharacter(self.pos, c3)));
            }
            self.advance();
            Option::Some(Ok((startpos, Token::Now)))
        } else {
            match char_token_of(c) {
                Option::Some(tok) => {
                    self.advance();
                    Option::Some(Ok((startpos, tok)))
                },
                Option::None => Option::Some(Err(Error::UnexpectedCharacter(self.pos, c))),
            }
        }
    }
}

/// Appending the next character extends a subrange by one.
proof fn lemma_subrange_push(s: Seq<char>, a: int, b: int)
    requires
        0 <= a <= b < s.len(),
    ensures
        s.subrange(a, b) + seq![s[b]] == s.subrange(a, b + 1),
{
    assert(s.subrange(a, b) + seq![s[b]] =~= s.subrange(a, b + 1));
}

/// Every character of a digit run is a digit, and the run stays inside
/// the text.
proof fn lemma_digit_run_digits(s: Seq<char>, i: int)
    requires
        0 <= i <= s.len(),
    ensures
        i <= digit_run_end(s, i) <= s.len(),
        forall|m: int| i <= m < digit_run_end(s, i) ==> is_digit_char(s[m]),
    decreases s.len() - i,
{
    if i < s.len() && is_digit_char(s[i]) {
        lemma_digit_run_digits(s, i + 1);
    }
}

/// The executable mirror of `char_token`.
fn char_token_of(c: char) -> (r: Option<Token>)
    ensures
        r == char_token(c),
{
    if c == '/' {
        Option::Some(Token::Floor)
    } else if c == '+' {
        Option::Some(Token::Add)
    } else if c == '-' {
        Option::Some(Token::Sub)
    } else if c == 'y' {
        Option::Some(Token::Year)
    } else if c == 'M' {
        Option::Some(Token::Month)
    } else if c == 'w' {
        Option::Some(Token::Week)
    } else if c == 'd' {
        Option::Some(Token::Day)
    } else if c == 'h' {
        Option::Some(Token::Hour)
    } else if c == 'm' {
        Option::Some(Token::Minute)
    } else if c == 's' {
        Option::Some(Token::Second)
    } else {
        Option::None
    }
}

} // verus!
