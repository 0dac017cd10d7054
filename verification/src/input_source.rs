//! The input-source model: a target DDC/CI input-selector code, either one of
//! the well-known symbolic selectors or a raw numeric code, parsed from
//! configuration text.

use vstd::prelude::*;

verus! {

/// A target input-source specification could not be parsed from its
/// configuration text.
#[derive(Clone, Copy, Debug, PartialEq, Eq, Structural)]
pub enum ParseError {
    /// The text is empty once surrounding whitespace is removed.
    Empty,
    /// The text is a well-formed numeric literal whose value exceeds the
    /// 16-bit selector range.
    OutOfRange,
    /// The text is neither a recognized symbolic selector name nor a
    /// well-formed decimal or `0x`-prefixed hexadecimal literal.
    Malformed,
}

/// The fixed set of well-known input selectors and their DDC/CI codes.
#[derive(Clone, Copy, Debug, PartialEq, Eq, Structural)]
pub enum SymbolicInputSource {
    DisplayPort1,
    DisplayPort2,
    Hdmi1,
    Hdmi2,
}

impl SymbolicInputSource {
    /// The fixed DDC/CI input-selector code of this symbolic selector.
    pub open spec fn spec_value(self) -> u16 {
        match self {
            SymbolicInputSource::DisplayPort1 => 0x0f,
            SymbolicInputSource::DisplayPort2 => 0x10,
            SymbolicInputSource::Hdmi1 => 0x11,
            SymbolicInputSource::Hdmi2 => 0x12,
        }
    }

    /// Resolve the symbolic selector to its fixed numeric code.
    pub fn value(self) -> (code: u16)
        ensures
            code == self.spec_value(),
    {
        match self {
            SymbolicInputSource::DisplayPort1 => 0x0f,
            SymbolicInputSource::DisplayPort2 => 0x10,
            SymbolicInputSource::Hdmi1 => 0x11,
            SymbolicInputSource::Hdmi2 => 0x12,
        }
    }
}

/// A target video-input selector: a well-known symbolic selector or an
/// arbitrary raw code in `[0, 65535]`.
#[derive(Clone, Copy, Debug, PartialEq, Eq, Structural)]
pub enum InputSource {
    Raw(u16),
    Symbolic(SymbolicInputSource),
}

impl InputSource {
    /// The numeric DDC/CI code this input source resolves to.
    pub open spec fn spec_value(self) -> u16 {
        match self {
            InputSource::Raw(code) => code,
            InputSource::Symbolic(sym) => sym.spec_value(),
        }
    }

    /// Resolve to the numeric code: symbolic selectors map to their fixed
    /// constant, raw selectors return the stored value unchanged.
    pub fn value(self) -> (code: u16)
        ensures
            code == self.spec_value(),
    {
        match self {
            InputSource::Raw(code) => code,
            InputSource::Symbolic(sym) => sym.value(),
        }
    }

    /// Parse configuration text into an input source: a symbolic selector
    /// name, or a numeric code in decimal or `0x`-prefixed hexadecimal form.
    pub fn parse(text: &str) -> (r: Result<InputSource, ParseError>)
        ensures
            r == spec_parse(text@),
    {
        let t = trim_str(text);
        if str_eq_str(t, "DisplayPort1") {
            return Ok(InputSource::Symbolic(SymbolicInputSource::DisplayPort1));
        }
        if str_eq_str(t, "DisplayPort2") {
            return Ok(InputSource::Symbolic(SymbolicInputSource::DisplayPort2));
        }
        if str_eq_str(t, "Hdmi1") {
            return Ok(InputSource::Symbolic(SymbolicInputSource::Hdmi1));
        }
        if str_eq_str(t, "Hdmi2") {
            return Ok(InputSource::Symbolic(SymbolicInputSource::Hdmi2));
        }
        let n: usize = t.unicode_len();
        if n == 0 {
            return Err(ParseError::Empty);
        }
        if n >= 2 {
            let c0 = t.get_char(0);
            let c1 = t.get_char(1);
            if c0 == '0' && (c1 == 'x' || c1 == 'X') {
                return raw_of(scan_digits(t, 2, true));
            }
        }
        proof {
            assert(t@.skip(0) =~= t@);
        }
        raw_of(scan_digits(t, 0, false))
    }
}

/// A character that parsing strips from the ends of the configuration text.
pub open spec fn is_space(c: char) -> bool {
    c == ' ' || c == '\t' || c == '\n' || c == '\r'
}

/// The text with its leading whitespace removed.
pub open spec fn trim_front(s: Seq<char>) -> Seq<char>
    decreases s.len(),
{
    if s.len() > 0 && is_space(s[0]) {
        trim_front(s.drop_first())
    } else {
        s
    }
}

/// The text with its trailing whitespace removed.
pub open spec fn trim_back(s: Seq<char>) -> Seq<char>
    decreases s.len(),
{
    if s.len() > 0 && is_space(s.last()) {
        trim_back(s.drop_last())
    } else {
        s
    }
}

/// The text with whitespace removed from both ends.
pub open spec fn trimmed(s: Seq<char>) -> Seq<char> {
    trim_back(trim_front(s))
}

pub open spec fn is_dec_digit(c: char) -> bool {
    '0' as int <= c as int && c as int <= '9' as int
}

pub open spec fn dec_digit_val(c: char) -> int {
    c as int - '0' as int
}

pub open spec fn is_hex_digit(c: char) -> bool {
    is_dec_digit(c)
    || ('a' as int <= c as int && c as int <= 'f' as int)
    || ('A' as int <= c as int && c as int <= 'F' as int)
}

pub open spec fn hex_digit_val(c: char) -> int {
    if is_dec_digit(c) {
        dec_digit_val(c)
    } else if 'a' as int <= c as int && c as int <= 'f' as int {
        10 + c as int - 'a' as int
    } else {
        10 + c as int - 'A' as int
    }
}

/// Whether `c` is a digit of the decimal (`hex == false`) or hexadecimal
/// (`hex == true`) literal grammar.
pub open spec fn digit_ok(c: char, hex: bool) -> bool {
    if hex {
        is_hex_digit(c)
    } else {
        is_dec_digit(c)
    }
}

pub open spec fn digit_val(c: char, hex: bool) -> int {
    if hex {
        hex_digit_val(c)
    } else {
        dec_digit_val(c)
    }
}

pub open spec fn base_of(hex: bool) -> int {
    if hex {
        16
    } else {
        10
    }
}

/// The integer a digit string denotes, most significant digit first.
pub open spec fn digits_val(s: Seq<char>, hex: bool) -> int
    decreases s.len(),
{
    if s.len() == 0 {
        0
    } else {
        digits_val(s.drop_last(), hex) * base_of(hex) + digit_val(s.last(), hex)
    }
}

pub open spec fn all_digits(s: Seq<char>, hex: bool) -> bool {
    forall|i: int| 0 <= i < s.len() ==> digit_ok(s[i], hex)
}

/// What scanning a digit string yields: the denoted value if every character
/// is a digit and the value fits in 16 bits, and the exact error otherwise.
pub open spec fn scan_spec(d: Seq<char>, hex: bool) -> Result<u16, ParseError> {
    if d.len() == 0 || !all_digits(d, hex) {
        Err(ParseError::Malformed)
    } else if digits_val(d, hex) > 0xFFFF {
        Err(ParseError::OutOfRange)
    } else {
        Ok(digits_val(d, hex) as u16)
    }
}

/// Whether the trimmed text selects the hexadecimal literal grammar.
pub open spec fn has_hex_prefix(t: Seq<char>) -> bool {
    t.len() >= 2 && t[0] == '0' && (t[1] == 'x' || t[1] == 'X')
}

pub open spec fn raw_result(r: Result<u16, ParseError>) -> Result<InputSource, ParseError> {
    match r {
        Ok(code) => Ok(InputSource::Raw(code)),
        Err(e) => Err(e),
    }
}

/// What `InputSource::parse` returns for any configuration text: symbolic
/// selector names are matched exactly on the trimmed text; otherwise the
/// trimmed text is read as a hexadecimal literal when it carries a `0x` or
/// `0X` prefix and as a decimal literal when it does not.
pub open spec fn spec_parse(s: Seq<char>) -> Result<InputSource, ParseError> {
    let t = trimmed(s);
    if t == "DisplayPort1"@ {
        Ok(InputSource::Symbolic(SymbolicInputSource::DisplayPort1))
    } else if t == "DisplayPort2"@ {
        Ok(InputSource::Symbolic(SymbolicInputSource::DisplayPort2))
    } else if t == "Hdmi1"@ {
        Ok(InputSource::Symbolic(SymbolicInputSource::Hdmi1))
    } else if t == "Hdmi2"@ {
        Ok(InputSource::Symbolic(SymbolicInputSource::Hdmi2))
    } else if t.len() == 0 {
        Err(ParseError::Empty)
    } else if has_hex_prefix(t) {
        raw_result(scan_spec(t.skip(2), true))
    } else {
        raw_result(scan_spec(t, false))
    }
}

fn char_is_space(c: char) -> (r: bool)
    ensures
        r == is_space(c),
{
    c == ' ' || c == '\t' || c == '\n' || c == '\r'
}

/// Remove leading and trailing whitespace.
fn trim_str<'a>(s: &'a str) -> (r: &'a str)
    ensures
        r@ == trimmed(s@),
{
    let n: usize = s.unicode_len();
    let mut lo: usize = 0;
    proof {
        assert(s@.skip(0) =~= s@);
    }
    while lo < n && char_is_space(s.get_char(lo))
        invariant
            n == s@.len(),
            lo <= n,
            trim_front(s@) == trim_front(s@.skip(lo as int)),
        decreases n - lo,
    {
        proof {
            assert(s@.skip(lo as int)[0] == s@[lo as int]);
            assert(s@.skip(lo as int).drop_first() =~= s@.skip(lo as int + 1));
        }
        lo = lo + 1;
    }
    proof {
        if lo < n {
            assert(s@.skip(lo as int)[0] == s@[lo as int]);
        }
        assert(trim_front(s@) == s@.skip(lo as int));
        assert(s@.skip(lo as int) =~= s@.subrange(lo as int, n as int));
    }
    let mut hi: usize = n;
    while hi > lo && char_is_space(s.get_char(hi - 1))
        invariant
            n == s@.len(),
            lo <= hi <= n,
            trim_front(s@) == s@.subrange(lo as int, n as int),
            trim_back(s@.subrange(lo as int, n as int)) == trim_back(
                s@.subrange(lo as int, hi as int),
            ),
        decreases hi,
    {
        proof {
            let t = s@.subrange(lo as int, hi as int);
            assert(t.last() == s@[hi as int - 1]);
            assert(t.drop_last() =~= s@.subrange(lo as int, hi as int - 1));
        }
        hi = hi - 1;
    }
    proof {
        if hi > lo {
            assert(s@.subrange(lo as int, hi as int).last() == s@[hi as int - 1]);
        }
        assert(trim_back(s@.subrange(lo as int, hi as int)) == s@.subrange(lo as int, hi as int));
    }
    s.substring_char(lo, hi)
}

/// Character-wise equality of two string slices.
pub(crate) fn str_eq_str(a: &str, b: &str) -> (r: bool)
    ensures
        r == (a@ == b@),
{
    let n: usize = a.unicode_len();
    let m: usize = b.unicode_len();
    if n != m {
        return false;
    }
    let mut i: usize = 0;
    while i < n
        invariant
            n == a@.len(),
            n == b@.len(),
            i <= n,
            forall|j: int| 0 <= j < i ==> a@[j] == b@[j],
        decreases n - i,
    {
        let ca = a.get_char(i);
        let cb = b.get_char(i);
        if ca != cb {
            return false;
        }
        i = i + 1;
    }
    proof {
        assert(a@ =~= b@);
    }
    true
}

/// The digit value of `c` in the selected grammar, or `None` when `c` is not
/// a digit of that grammar.
fn digit_value(c: char, hex: bool) -> (r: Option<u32>)
    ensures
        match r {
            Some(v) => digit_ok(c, hex) && v as int == digit_val(c, hex),
            None => !digit_ok(c, hex),
        },
{
    let u = c as u32;
    if 0x30 <= u && u <= 0x39 {
        Some(u - 0x30)
    } else if hex && 0x61 <= u && u <= 0x66 {
        Some(10 + (u - 0x61))
    } else if hex && 0x41 <= u && u <= 0x46 {
        Some(10 + (u - 0x41))
    } else {
        None
    }
}

/// Scan the digit string `t[from..]`, yielding its value when every
/// character is a digit of the selected grammar and the value fits in 16
/// bits, and the exact error otherwise.
fn scan_digits(t: &str, from: usize, hex: bool) -> (r: Result<u16, ParseError>)
    requires
        from as int <= t@.len(),
    ensures
        r == scan_spec(t@.skip(from as int), hex),
{
    let ghost d = t@.skip(from as int);
    let n: usize = t.unicode_len();
    if from == n {
        return Err(ParseError::Malformed);
    }
    let mut i: usize = from;
    let mut acc: u32 = 0;
    let mut ok: bool = true;
    let mut exceeded: bool = false;
    while i < n
        invariant
            n == t@.len(),
            from <= i <= n,
            d == t@.skip(from as int),
            ok == all_digits(d.take(i - from), hex),
            (ok && !exceeded) ==> acc as int == digits_val(d.take(i - from), hex) && acc <= 0xFFFF,
            (ok && exceeded) ==> digits_val(d.take(i - from), hex) > 0xFFFF,
        decreases n - i,
    {
        let ghost k = i - from;
        let c = t.get_char(i);
        proof {
            assert(d[k] == t@[i as int]);
            assert(d.take(k + 1).drop_last() =~= d.take(k));
            assert(d.take(k + 1).last() == d[k]);
            assert forall|j: int| 0 <= j < k + 1 implies d.take(k + 1)[j] == d[j] by {}
        }
        match digit_value(c, hex) {
            None => {
                ok = false;
            },
            Some(v) => {
                if ok {
                    if !exceeded {
                        let next: u32 = if hex {
                            acc * 16 + v
                        } else {
                            acc * 10 + v
                        };
                        if next > 0xFFFF {
                            exceeded = true;
                        } else {
                            acc = next;
                        }
                    } else {
                        proof {
                            lemma_digits_val_nonneg(d.take(k), hex);
                        }
                    }
                }
            },
        }
        i = i + 1;
    }
    proof {
        assert(d.take(n - from) =~= d);
    }
    if !ok {
        Err(ParseError::Malformed)
    } else if exceeded {
        Err(ParseError::OutOfRange)
    } else {
        Ok(acc as u16)
    }
}

fn raw_of(r: Result<u16, ParseError>) -> (out: Result<InputSource, ParseError>)
    ensures
        out == raw_result(r),
{
    match r {
        Ok(code) => Ok(InputSource::Raw(code)),
        Err(e) => Err(e),
    }
}

/// The names the symbolic grammar recognizes.
pub open spec fn is_symbolic_name(t: Seq<char>) -> bool {
    t == "DisplayPort1"@ || t == "DisplayPort2"@ || t == "Hdmi1"@ || t == "Hdmi2"@
}

/// Whether parsing accepts the text at all: a symbolic name, a hexadecimal
/// literal in range, or a decimal literal in range.
pub open spec fn parse_accepts(s: Seq<char>) -> bool {
    let t = trimmed(s);
    ||| is_symbolic_name(t)
    ||| (has_hex_prefix(t) && t.skip(2).len() > 0 && all_digits(t.skip(2), true) && digits_val(
        t.skip(2),
        true,
    ) <= 0xFFFF)
    ||| (!is_symbolic_name(t) && !has_hex_prefix(t) && t.len() > 0 && all_digits(t, false)
        && digits_val(t, false) <= 0xFFFF)
}

/// Text whose ends are not whitespace trims to itself.
proof fn lemma_trim_none(s: Seq<char>)
    requires
        s.len() > 0,
        !is_space(s[0]),
        !is_space(s.last()),
    ensures
        trimmed(s) == s,
{
}

/// Every decimal digit string denoting a value in the 16-bit range parses to
/// exactly that raw selector code.
pub proof fn lemma_parse_decimal(s: Seq<char>)
    requires
        s.len() > 0,
        all_digits(s, false),
        digits_val(s, false) <= 0xFFFF,
    ensures
        spec_parse(s) == Ok::<InputSource, ParseError>(InputSource::Raw(digits_val(s, false) as u16)),
        spec_parse(s)->Ok_0.spec_value() == digits_val(s, false),
{
    reveal_strlit("DisplayPort1");
    reveal_strlit("DisplayPort2");
    reveal_strlit("Hdmi1");
    reveal_strlit("Hdmi2");
    lemma_digits_val_nonneg(s, false);
    assert(is_dec_digit(s[0]));
    assert(is_dec_digit(s.last()));
    lemma_trim_none(s);
    let t = trimmed(s);
    assert(!is_symbolic_name(t)) by {
        if t == "DisplayPort1"@ {
            assert(s[0] == 'D');
        }
        if t == "DisplayPort2"@ {
            assert(s[0] == 'D');
        }
        if t == "Hdmi1"@ {
            assert(s[0] == 'H');
        }
        if t == "Hdmi2"@ {
            assert(s[0] == 'H');
        }
    }
    assert(!has_hex_prefix(t)) by {
        if s.len() >= 2 {
            assert(is_dec_digit(s[1]));
        }
    }
}

/// Every `0x`- or `0X`-prefixed hexadecimal digit string denoting a value in
/// the 16-bit range parses to exactly that raw selector code, whatever the
/// case of its digits.
pub proof fn lemma_parse_hex(s: Seq<char>)
    requires
        s.len() > 2,
        s[0] == '0',
        s[1] == 'x' || s[1] == 'X',
        all_digits(s.skip(2), true),
        digits_val(s.skip(2), true) <= 0xFFFF,
    ensures
        spec_parse(s) == Ok::<InputSource, ParseError>(InputSource::Raw(digits_val(s.skip(2), true) as u16)),
        spec_parse(s)->Ok_0.spec_value() == digits_val(s.skip(2), true),
{
    reveal_strlit("DisplayPort1");
    reveal_strlit("DisplayPort2");
    reveal_strlit("Hdmi1");
    reveal_strlit("Hdmi2");
    lemma_digits_val_nonneg(s.skip(2), true);
    assert(s.last() == s.skip(2).last());
    assert(is_hex_digit(s.skip(2).last()));
    lemma_trim_none(s);
    let t = trimmed(s);
    assert(!is_symbolic_name(t)) by {
        if t == "DisplayPort1"@ || t == "DisplayPort2"@ {
            assert(s[0] == 'D');
        }
        if t == "Hdmi1"@ || t == "Hdmi2"@ {
            assert(s[0] == 'H');
        }
    }
    assert(has_hex_prefix(t));
    assert(t.skip(2).len() > 0);
}

/// Parsing fails exactly on the inputs outside the accepted grammar, and with
/// the error each class of rejected input is owed: empty text (after
/// trimming), a numeric literal beyond the 16-bit range, and text that is
/// neither numeric nor a recognized symbolic name.
pub proof fn lemma_parse_rejects(s: Seq<char>)
    ensures
        spec_parse(s) is Ok <==> parse_accepts(s),
        trimmed(s).len() == 0 ==> spec_parse(s) == Err::<InputSource, ParseError>(ParseError::Empty),
        (!is_symbolic_name(trimmed(s)) && has_hex_prefix(trimmed(s)) && trimmed(s).skip(2).len() > 0
            && all_digits(trimmed(s).skip(2), true) && digits_val(trimmed(s).skip(2), true)
            > 0xFFFF) ==> spec_parse(s) == Err::<InputSource, ParseError>(ParseError::OutOfRange),
        (!is_symbolic_name(trimmed(s)) && !has_hex_prefix(trimmed(s)) && trimmed(s).len() > 0
            && all_digits(trimmed(s), false) && digits_val(trimmed(s), false) > 0xFFFF)
            ==> spec_parse(s) == Err::<InputSource, ParseError>(ParseError::OutOfRange),
        (!is_symbolic_name(trimmed(s)) && trimmed(s).len() > 0 && (if has_hex_prefix(trimmed(s)) {
            !(trimmed(s).skip(2).len() > 0 && all_digits(trimmed(s).skip(2), true))
        } else {
            !all_digits(trimmed(s), false)
        })) ==> spec_parse(s) == Err::<InputSource, ParseError>(ParseError::Malformed),
{
    reveal_strlit("DisplayPort1");
    reveal_strlit("DisplayPort2");
    reveal_strlit("Hdmi1");
    reveal_strlit("Hdmi2");
    let t = trimmed(s);
    if t.len() == 0 {
        assert(!is_symbolic_name(t));
    }
}

pub open spec fn is_ascii_upper(c: char) -> bool {
    'A' as int <= c as int && c as int <= 'Z' as int
}

/// Two characters equal up to ASCII letter case.
pub open spec fn ascii_case_eq(a: char, b: char) -> bool {
    a == b || (is_ascii_upper(a) && b as int == a as int + 32) || (is_ascii_upper(b) && a as int
        == b as int + 32)
}

/// Digit strings with pointwise-equal digit values denote the same integer.
pub proof fn lemma_digits_val_pointwise(a: Seq<char>, b: Seq<char>, hex: bool)
    requires
        a.len() == b.len(),
        forall|i: int| 0 <= i < a.len() ==> digit_val(#[trigger] a[i], hex) == digit_val(b[i], hex),
    ensures
        digits_val(a, hex) == digits_val(b, hex),
    decreases a.len(),
{
    if a.len() > 0 {
        assert forall|i: int| 0 <= i < a.drop_last().len() implies digit_val(
            #[trigger] a.drop_last()[i],
            hex,
        ) == digit_val(b.drop_last()[i], hex) by {
            assert(a.drop_last()[i] == a[i]);
            assert(b.drop_last()[i] == b[i]);
        }
        lemma_digits_val_pointwise(a.drop_last(), b.drop_last(), hex);
        assert(digit_val(a.last(), hex) == digit_val(b.last(), hex));
    }
}

/// Hexadecimal parsing is case-insensitive on both the `0x` prefix and the
/// digits: changing the ASCII case of any characters of a well-formed
/// hexadecimal literal never changes what it parses to.
pub proof fn lemma_parse_hex_case_insensitive(s: Seq<char>, t: Seq<char>)
    requires
        s.len() > 2,
        s[0] == '0',
        s[1] == 'x' || s[1] == 'X',
        all_digits(s.skip(2), true),
        t.len() == s.len(),
        forall|i: int| 0 <= i < s.len() ==> ascii_case_eq(#[trigger] s[i], t[i]),
    ensures
        spec_parse(t) == spec_parse(s),
{
    reveal_strlit("DisplayPort1");
    reveal_strlit("DisplayPort2");
    reveal_strlit("Hdmi1");
    reveal_strlit("Hdmi2");
    assert(ascii_case_eq(s[0], t[0]));
    assert(t[0] == '0');
    assert(ascii_case_eq(s[1], t[1]));
    assert(t[1] == 'x' || t[1] == 'X') by {
        if t[1] != s[1] {
            if is_ascii_upper(s[1]) {
                assert(t[1] as int == 'x' as int);
                assert(t[1] == 'x');
            } else {
                assert(t[1] as int == s[1] as int - 32);
                assert(t[1] as int == 'X' as int);
                assert(t[1] == 'X');
            }
        }
    }
    assert forall|i: int| 0 <= i < s.skip(2).len() implies digit_ok(#[trigger] t.skip(2)[i], true)
        && digit_val(t.skip(2)[i], true) == digit_val(s.skip(2)[i], true) by {
        assert(s.skip(2)[i] == s[i + 2]);
        assert(t.skip(2)[i] == t[i + 2]);
        assert(ascii_case_eq(s[i + 2], t[i + 2]));
        assert(is_hex_digit(s[i + 2]));
    }
    assert(all_digits(t.skip(2), true));
    lemma_digits_val_pointwise(s.skip(2), t.skip(2), true);
    lemma_digits_val_nonneg(s.skip(2), true);
    assert(s.last() == s.skip(2).last());
    assert(t.last() == t.skip(2)[t.len() - 3]);
    lemma_trim_none(s);
    lemma_trim_none(t);
    assert(!is_symbolic_name(trimmed(s))) by {
        if trimmed(s) == "DisplayPort1"@ || trimmed(s) == "DisplayPort2"@ {
            assert(s[0] == 'D');
        }
        if trimmed(s) == "Hdmi1"@ || trimmed(s) == "Hdmi2"@ {
            assert(s[0] == 'H');
        }
    }
    assert(!is_symbolic_name(trimmed(t))) by {
        if trimmed(t) == "DisplayPort1"@ || trimmed(t) == "DisplayPort2"@ {
            assert(t[0] == 'D');
        }
        if trimmed(t) == "Hdmi1"@ || trimmed(t) == "Hdmi2"@ {
            assert(t[0] == 'H');
        }
    }
    assert(has_hex_prefix(trimmed(s)));
    assert(has_hex_prefix(trimmed(t)));
    assert(scan_spec(t.skip(2), true) == scan_spec(s.skip(2), true));
}

/// A digit string never denotes a negative integer.
pub proof fn lemma_digits_val_nonneg(s: Seq<char>, hex: bool)
    requires
        all_digits(s, hex),
    ensures
        0 <= digits_val(s, hex),
    decreases s.len(),
{
    if s.len() > 0 {
        assert(all_digits(s.drop_last(), hex)) by {
            assert forall|i: int| 0 <= i < s.drop_last().len() implies digit_ok(
                s.drop_last()[i],
                hex,
            ) by {
                assert(s.drop_last()[i] == s[i]);
            }
        }
        lemma_digits_val_nonneg(s.drop_last(), hex);
    }
}

} // verus!
