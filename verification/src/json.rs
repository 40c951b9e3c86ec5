//! A small JSON reader, verified against a specification-level parser.
//!
//! The dialect matches what the API serves: values are `null`, booleans,
//! 64-bit integers, strings, arrays and objects.  String contents are kept
//! as their (UTF-8) bytes with escape sequences resolved: the simple
//! escapes and `\uXXXX` for a basic-plane scalar are understood, while a
//! surrogate `\uXXXX` (and hence a surrogate pair, which no conforming
//! encoder needs) is a parse failure, as are a raw control byte and a
//! malformed escape.  Numbers with a fraction or exponent part are a parse
//! failure; redundant leading zeros and a bare `-0` are tolerated and read
//! as their value.  Object members are kept in wire order: when the wire
//! repeats a key, every occurrence is kept, and `lookup`-style readers
//! take the first.

use crate::textenc::dec_digits;
use crate::textenc::digits_val;
use crate::textenc::is_digit;
use crate::textenc::lemma_digits_val_nonneg;
use crate::textenc::lemma_dec_digits;
use vstd::prelude::*;
use vstd::utf8::encode_scalar;

verus! {

broadcast use vstd::std_specs::vec::group_vec_axioms;

/// A JSON value as held by executable code.
#[derive(Debug, PartialEq)]
pub enum Json {
    Null,
    Bool(bool),
    Int(i64),
    /// String contents as raw (UTF-8) bytes, with no surrounding quotes.
    Str(Vec<u8>),
    Arr(Vec<Json>),
    /// Object members in the order they appeared on the wire.
    Obj(Vec<(Vec<u8>, Json)>),
}

/// The mathematical model of a JSON value.
pub enum JsonV {
    Null,
    Bool(bool),
    Int(int),
    Str(Seq<u8>),
    Arr(Seq<JsonV>),
    Obj(Seq<(Seq<u8>, JsonV)>),
}

impl View for Json {
    type V = JsonV;

    open spec fn view(&self) -> JsonV
        decreases self,
    {
        match self {
            Json::Null => JsonV::Null,
            Json::Bool(b) => JsonV::Bool(*b),
            Json::Int(n) => JsonV::Int(*n as int),
            Json::Str(s) => JsonV::Str(s@),
            Json::Arr(items) => JsonV::Arr(views_of(items@)),
            Json::Obj(members) => JsonV::Obj(member_views(members@)),
        }
    }
}

/// The element views of a sequence of values.
pub open spec fn views_of(items: Seq<Json>) -> Seq<JsonV>
    decreases items,
{
    if items.len() == 0 {
        Seq::empty()
    } else {
        seq![items[0]@] + views_of(items.drop_first())
    }
}

/// The member views of a sequence of key/value pairs.
pub open spec fn member_views(ms: Seq<(Vec<u8>, Json)>) -> Seq<(Seq<u8>, JsonV)>
    decreases ms,
{
    if ms.len() == 0 {
        Seq::empty()
    } else {
        seq![(ms[0].0@, ms[0].1@)] + member_views(ms.drop_first())
    }
}

/// `views_of` is the element-wise view.
pub proof fn lemma_views_of(items: Seq<Json>)
    ensures
        views_of(items).len() == items.len(),
        forall|i: int| 0 <= i < items.len() ==> #[trigger] views_of(items)[i] == items[i]@,
    decreases items.len(),
{
    if items.len() > 0 {
        lemma_views_of(items.drop_first());
        assert(views_of(items) == seq![items[0]@] + views_of(items.drop_first()));
        assert(views_of(items).len() == items.len());
        assert forall|i: int| 0 <= i < items.len() implies #[trigger] views_of(items)[i] == items[i]@ by {
            if i == 0 {
                assert(views_of(items)[0] == items[0]@);
            } else {
                assert(views_of(items)[i] == views_of(items.drop_first())[i - 1]);
                assert(items.drop_first()[i - 1] == items[i]);
            }
        }
    } else {
        assert(views_of(items) =~= Seq::<JsonV>::empty());
    }
}

/// `member_views` is the pair-wise view.
pub proof fn lemma_member_views(ms: Seq<(Vec<u8>, Json)>)
    ensures
        member_views(ms).len() == ms.len(),
        forall|i: int|
            0 <= i < ms.len() ==> #[trigger] member_views(ms)[i] == (ms[i].0@, ms[i].1@),
    decreases ms.len(),
{
    if ms.len() > 0 {
        lemma_member_views(ms.drop_first());
        assert(member_views(ms) == seq![(ms[0].0@, ms[0].1@)] + member_views(ms.drop_first()));
        assert(member_views(ms).len() == ms.len());
        assert forall|i: int|
            0 <= i < ms.len() implies #[trigger] member_views(ms)[i] == (ms[i].0@, ms[i].1@) by {
            if i == 0 {
                assert(member_views(ms)[0] == (ms[0].0@, ms[0].1@));
            } else {
                assert(member_views(ms)[i] == member_views(ms.drop_first())[i - 1]);
                assert(ms.drop_first()[i - 1] == ms[i]);
            }
        }
    } else {
        assert(member_views(ms) =~= Seq::<(Seq<u8>, JsonV)>::empty());
    }
}

/// Is `b` a JSON whitespace byte.
pub open spec fn is_ws(b: u8) -> bool {
    b == 0x20 || b == 0x09 || b == 0x0a || b == 0x0d
}

/// The first position at or after `i` holding a non-whitespace byte (or the
/// end of the input).
pub open spec fn skip_ws(s: Seq<u8>, i: int) -> int
    decreases s.len() - i,
{
    if 0 <= i < s.len() && is_ws(s[i]) {
        skip_ws(s, i + 1)
    } else {
        i
    }
}

/// A byte that may follow a backslash as a one-character escape.
pub open spec fn is_simple_esc(b: u8) -> bool {
    b == 0x22 || b == 0x5c || b == 0x2f || b == 0x62 || b == 0x66 || b == 0x6e || b == 0x72 || b
        == 0x74
}

/// The byte a one-character escape stands for.
pub open spec fn esc_char_byte(b: u8) -> u8 {
    if b == 0x62 {
        0x08
    } else if b == 0x66 {
        0x0c
    } else if b == 0x6e {
        0x0a
    } else if b == 0x72 {
        0x0d
    } else if b == 0x74 {
        0x09
    } else {
        b
    }
}

/// Is `b` a hexadecimal digit byte, either case.
pub open spec fn is_hex(b: u8) -> bool {
    (0x30 <= b <= 0x39) || (0x41 <= b <= 0x46) || (0x61 <= b <= 0x66)
}

/// The value of a hexadecimal digit byte.
pub open spec fn hex_val(b: u8) -> int {
    if 0x30 <= b <= 0x39 {
        b - 0x30
    } else if 0x41 <= b <= 0x46 {
        b - 0x41 + 10
    } else if 0x61 <= b <= 0x66 {
        b - 0x61 + 10
    } else {
        0
    }
}

/// The value of four hexadecimal digit bytes, most significant first.
pub open spec fn hex4_val(a: u8, b: u8, c: u8, d: u8) -> int {
    hex_val(a) * 0x1000 + hex_val(b) * 0x100 + hex_val(c) * 0x10 + hex_val(d)
}

/// Reads string contents from just inside the opening quote up to the
/// closing quote, resolving escape sequences: `Some((content, j))` holds
/// the unescaped bytes and the position after the closing quote.  A raw
/// control byte, a malformed escape, or a surrogate `\uXXXX` is a
/// failure.
pub open spec fn scan_str(s: Seq<u8>, i: int) -> Option<(Seq<u8>, int)>
    decreases s.len() - i,
{
    if !(0 <= i < s.len()) {
        None
    } else if s[i] == 0x22 {
        Some((Seq::empty(), i + 1))
    } else if s[i] == 0x5c {
        if i + 1 < s.len() && is_simple_esc(s[i + 1]) {
            match scan_str(s, i + 2) {
                Some((rest, j)) => Some((seq![esc_char_byte(s[i + 1])] + rest, j)),
                None => None,
            }
        } else if i + 5 < s.len() && s[i + 1] == 0x75 && is_hex(s[i + 2]) && is_hex(s[i + 3])
            && is_hex(s[i + 4]) && is_hex(s[i + 5]) {
            let cp = hex4_val(s[i + 2], s[i + 3], s[i + 4], s[i + 5]);
            if 0xd800 <= cp <= 0xdfff {
                None
            } else {
                match scan_str(s, i + 6) {
                    Some((rest, j)) => Some((encode_scalar(cp as u32) + rest, j)),
                    None => None,
                }
            }
        } else {
            None
        }
    } else if s[i] < 0x20 {
        None
    } else {
        match scan_str(s, i + 1) {
            Some((rest, j)) => Some((seq![s[i]] + rest, j)),
            None => None,
        }
    }
}

/// The end of the run of decimal digit bytes starting at `i`.
pub open spec fn scan_digits(s: Seq<u8>, i: int) -> int
    decreases s.len() - i,
{
    if 0 <= i < s.len() && is_digit(s[i]) {
        scan_digits(s, i + 1)
    } else {
        i
    }
}

/// Does `lit` occur in `s` starting at position `i`.
pub open spec fn has_at(s: Seq<u8>, i: int, lit: Seq<u8>) -> bool {
    0 <= i && i + lit.len() <= s.len() && s.subrange(i, i + lit.len()) == lit
}

/// The bytes of the literal `null`.
pub open spec fn null_bytes() -> Seq<u8> {
    seq![0x6eu8, 0x75u8, 0x6cu8, 0x6cu8]
}

/// The bytes of the literal `true`.
pub open spec fn true_bytes() -> Seq<u8> {
    seq![0x74u8, 0x72u8, 0x75u8, 0x65u8]
}

/// The bytes of the literal `false`.
pub open spec fn false_bytes() -> Seq<u8> {
    seq![0x66u8, 0x61u8, 0x6cu8, 0x73u8, 0x65u8]
}

/// Parses an integer (optional minus sign, then digits) at `i`.  Fails when
/// there is no digit or the value does not fit in an `i64`.
pub open spec fn parse_int(s: Seq<u8>, i: int) -> Option<(JsonV, int)> {
    let neg = 0 <= i < s.len() && s[i] == 0x2d;
    let d0 = if neg {
        i + 1
    } else {
        i
    };
    let j = scan_digits(s, d0);
    if j == d0 {
        None
    } else {
        let m = digits_val(s.subrange(d0, j));
        let x: int = if neg {
            -m
        } else {
            m
        };
        if x < i64::MIN || x > i64::MAX {
            None
        } else {
            Some((JsonV::Int(x), j))
        }
    }
}

/// Parses a quoted string at `i`, returning its unescaped contents and
/// the position after the closing quote.
pub open spec fn parse_string(s: Seq<u8>, i: int) -> Option<(Seq<u8>, int)> {
    if !(0 <= i < s.len() && s[i] == 0x22) {
        None
    } else {
        scan_str(s, i + 1)
    }
}

/// Clamps a parsing position so that it strictly advances; every position
/// the parser actually reaches already does, so this changes nothing of the
/// parsed language, but it lets each recursive call decrease structurally.
pub open spec fn step_idx(s: Seq<u8>, i: int, j: int) -> int {
    if i < j <= s.len() {
        j
    } else {
        s.len() as int
    }
}

/// Parses one JSON value whose first byte is at `i`.
pub open spec fn parse_value(s: Seq<u8>, i: int) -> Option<(JsonV, int)>
    decreases s.len() - i, 0int,
{
    if !(0 <= i < s.len()) {
        None
    } else if s[i] == 0x6e {  // 'n'
        if has_at(s, i, null_bytes()) {
            Some((JsonV::Null, i + 4))
        } else {
            None
        }
    } else if s[i] == 0x74 {  // 't'
        if has_at(s, i, true_bytes()) {
            Some((JsonV::Bool(true), i + 4))
        } else {
            None
        }
    } else if s[i] == 0x66 {  // 'f'
        if has_at(s, i, false_bytes()) {
            Some((JsonV::Bool(false), i + 5))
        } else {
            None
        }
    } else if s[i] == 0x22 {  // '"'
        match parse_string(s, i) {
            Some((cs, j)) => Some((JsonV::Str(cs), j)),
            None => None,
        }
    } else if s[i] == 0x2d || is_digit(s[i]) {
        parse_int(s, i)
    } else if s[i] == 0x5b {  // '['
        let j = step_idx(s, i, skip_ws(s, i + 1));
        if j < s.len() && s[j] == 0x5d {  // ']'
            Some((JsonV::Arr(Seq::empty()), j + 1))
        } else {
            match parse_items(s, j) {
                Some((vs, end)) => Some((JsonV::Arr(vs), end)),
                None => None,
            }
        }
    } else if s[i] == 0x7b {  // '{'
        let j = step_idx(s, i, skip_ws(s, i + 1));
        if j < s.len() && s[j] == 0x7d {  // '}'
            Some((JsonV::Obj(Seq::empty()), j + 1))
        } else {
            match parse_members(s, j) {
                Some((ms, end)) => Some((JsonV::Obj(ms), end)),
                None => None,
            }
        }
    } else {
        None
    }
}

/// Parses a non-empty, comma-separated list of values followed by `]`,
/// starting at the first value's first byte.
pub open spec fn parse_items(s: Seq<u8>, i: int) -> Option<(Seq<JsonV>, int)>
    decreases s.len() - i, 1int,
{
    if !(0 <= i < s.len()) {
        None
    } else {
        match parse_value(s, i) {
            None => None,
            Some((v, j)) => {
                let k = skip_ws(s, j);
                if 0 <= k < s.len() && s[k] == 0x2c {  // ','
                    let k2 = skip_ws(s, k + 1);
                    match parse_items(s, step_idx(s, i, k2)) {
                        None => None,
                        Some((vs, end)) => Some((seq![v] + vs, end)),
                    }
                } else if 0 <= k < s.len() && s[k] == 0x5d {  // ']'
                    Some((seq![v], k + 1))
                } else {
                    None
                }
            },
        }
    }
}

/// Parses a non-empty, comma-separated list of `"key": value` members
/// followed by `}`, starting at the first key's opening quote.
pub open spec fn parse_members(s: Seq<u8>, i: int) -> Option<(Seq<(Seq<u8>, JsonV)>, int)>
    decreases s.len() - i, 1int,
{
    if !(0 <= i < s.len()) {
        None
    } else {
        match parse_string(s, i) {
            None => None,
            Some((key, j)) => {
                let k = skip_ws(s, j);
                if !(0 <= k < s.len() && s[k] == 0x3a) {  // ':'
                    None
                } else {
                    let k2 = step_idx(s, i, skip_ws(s, k + 1));
                    match parse_value(s, k2) {
                        None => None,
                        Some((v, j2)) => {
                            let k3 = skip_ws(s, j2);
                            if 0 <= k3 < s.len() && s[k3] == 0x2c {  // ','
                                let k4 = skip_ws(s, k3 + 1);
                                match parse_members(s, step_idx(s, i, k4)) {
                                    None => None,
                                    Some((ms, end)) => Some((seq![(key, v)] + ms, end)),
                                }
                            } else if 0 <= k3 < s.len() && s[k3] == 0x7d {  // '}'
                                Some((seq![(key, v)], k3 + 1))
                            } else {
                                None
                            }
                        },
                    }
                }
            },
        }
    }
}

/// Parses a complete JSON document: one value, possibly surrounded by
/// whitespace, spanning the whole input.
pub open spec fn spec_parse_json(s: Seq<u8>) -> Option<JsonV> {
    match parse_value(s, skip_ws(s, 0)) {
        Some((v, j)) => if skip_ws(s, j) == s.len() {
            Some(v)
        } else {
            None
        },
        None => None,
    }
}

/// `skip_ws` lands between its start and the end of the input.
pub proof fn lemma_skip_ws(s: Seq<u8>, i: int)
    requires
        0 <= i <= s.len(),
    ensures
        i <= skip_ws(s, i) <= s.len(),
    decreases s.len() - i,
{
    if i < s.len() && is_ws(s[i]) {
        lemma_skip_ws(s, i + 1);
    }
}

/// A successful string scan consumes at least the closing quote and stays
/// within the input.
pub proof fn lemma_scan_str(s: Seq<u8>, i: int)
    requires
        0 <= i,
    ensures
        match scan_str(s, i) {
            Some((c, j)) => i < j <= s.len(),
            None => true,
        },
    decreases s.len() - i,
{
    if 0 <= i < s.len() {
        if s[i] == 0x22 {
        } else if s[i] == 0x5c {
            if i + 1 < s.len() && is_simple_esc(s[i + 1]) {
                lemma_scan_str(s, i + 2);
            } else if i + 5 < s.len() && s[i + 1] == 0x75 && is_hex(s[i + 2]) && is_hex(s[i + 3])
                && is_hex(s[i + 4]) && is_hex(s[i + 5]) {
                lemma_scan_str(s, i + 6);
            }
        } else if s[i] < 0x20 {
        } else {
            lemma_scan_str(s, i + 1);
        }
    }
}

/// A digit scan lands between its start and the end of the input.
pub proof fn lemma_scan_digits(s: Seq<u8>, i: int)
    requires
        0 <= i <= s.len(),
    ensures
        i <= scan_digits(s, i) <= s.len(),
        forall|k: int| i <= k < scan_digits(s, i) ==> is_digit(#[trigger] s[k]),
    decreases s.len() - i,
{
    if i < s.len() && is_digit(s[i]) {
        lemma_scan_digits(s, i + 1);
    }
}

/// A successful value parse consumes at least one byte and stays within the
/// input.
pub proof fn lemma_parse_value_progress(s: Seq<u8>, i: int)
    ensures
        match parse_value(s, i) {
            Some((v, j)) => 0 <= i < j <= s.len(),
            None => true,
        },
    decreases s.len() - i, 0int,
{
    if 0 <= i < s.len() {
        if s[i] == 0x22 {
            lemma_scan_str(s, i + 1);
        } else if s[i] == 0x2d || is_digit(s[i]) {
            let neg = s[i] == 0x2d;
            let d0 = if neg {
                i + 1
            } else {
                i
            };
            lemma_scan_digits(s, d0);
        } else if s[i] == 0x5b {
            let j = step_idx(s, i, skip_ws(s, i + 1));
            if !(j < s.len() && s[j] == 0x5d) {
                lemma_parse_items_progress(s, j);
            }
        } else if s[i] == 0x7b {
            let j = step_idx(s, i, skip_ws(s, i + 1));
            if !(j < s.len() && s[j] == 0x7d) {
                lemma_parse_members_progress(s, j);
            }
        }
    }
}

/// A successful item-list parse consumes at least one byte and stays within
/// the input.
pub proof fn lemma_parse_items_progress(s: Seq<u8>, i: int)
    ensures
        match parse_items(s, i) {
            Some((vs, j)) => 0 <= i < j <= s.len(),
            None => true,
        },
    decreases s.len() - i, 1int,
{
    if 0 <= i < s.len() {
        lemma_parse_value_progress(s, i);
        match parse_value(s, i) {
            None => {},
            Some((v, j)) => {
                lemma_skip_ws(s, j);
                let k = skip_ws(s, j);
                if 0 <= k < s.len() && s[k] == 0x2c {
                    lemma_skip_ws(s, k + 1);
                    let k2 = skip_ws(s, k + 1);
                    lemma_parse_items_progress(s, step_idx(s, i, k2));
                }
            },
        }
    }
}

/// A successful member-list parse consumes at least one byte and stays
/// within the input.
pub proof fn lemma_parse_members_progress(s: Seq<u8>, i: int)
    ensures
        match parse_members(s, i) {
            Some((ms, j)) => 0 <= i < j <= s.len(),
            None => true,
        },
    decreases s.len() - i, 1int,
{
    if 0 <= i < s.len() {
        match parse_string(s, i) {
            None => {},
            Some((key, j)) => {
                lemma_scan_str(s, i + 1);
                lemma_skip_ws(s, j);
                let k = skip_ws(s, j);
                if 0 <= k < s.len() && s[k] == 0x3a {
                    lemma_skip_ws(s, k + 1);
                    let k2 = step_idx(s, i, skip_ws(s, k + 1));
                    lemma_parse_value_progress(s, k2);
                    match parse_value(s, k2) {
                        None => {},
                        Some((v, j2)) => {
                            lemma_skip_ws(s, j2);
                            let k3 = skip_ws(s, j2);
                            if 0 <= k3 < s.len() && s[k3] == 0x2c {
                                lemma_skip_ws(s, k3 + 1);
                                let k4 = skip_ws(s, k3 + 1);
                                lemma_parse_members_progress(s, step_idx(s, i, k4));
                            }
                        },
                    }
                }
            },
        }
    }
}

/// Decides whether `b` is a JSON whitespace byte.
fn ws_byte(b: u8) -> (r: bool)
    ensures
        r == is_ws(b),
{
    b == 0x20 || b == 0x09 || b == 0x0a || b == 0x0d
}

/// Decides whether `b` is an ASCII decimal digit.
fn digit_byte(b: u8) -> (r: bool)
    ensures
        r == is_digit(b),
{
    0x30 <= b && b <= 0x39
}

/// Advances `i` past whitespace.
pub fn skip_ws_exec(s: &[u8], i: usize) -> (r: usize)
    requires
        i <= s@.len(),
    ensures
        r as int == skip_ws(s@, i as int),
        i <= r <= s@.len(),
{
    let n = s.len();
    let mut j = i;
    while j < n && ws_byte(s[j])
        invariant
            i <= j <= n,
            n == s@.len(),
            skip_ws(s@, i as int) == skip_ws(s@, j as int),
        decreases n - j,
    {
        j += 1;
    }
    j
}

/// Decides whether `b` is a one-character escape code.
fn simple_esc_byte(b: u8) -> (r: bool)
    ensures
        r == is_simple_esc(b),
{
    b == 0x22 || b == 0x5c || b == 0x2f || b == 0x62 || b == 0x66 || b == 0x6e || b == 0x72 || b
        == 0x74
}

/// The byte a one-character escape stands for.
fn esc_char_byte_exec(b: u8) -> (r: u8)
    ensures
        r == esc_char_byte(b),
{
    if b == 0x62 {
        0x08
    } else if b == 0x66 {
        0x0c
    } else if b == 0x6e {
        0x0a
    } else if b == 0x72 {
        0x0d
    } else if b == 0x74 {
        0x09
    } else {
        b
    }
}

/// The value of a hexadecimal digit byte, or `None` for any other byte.
fn hex_val_exec(b: u8) -> (r: Option<u8>)
    ensures
        match r {
            Some(v) => is_hex(b) && v as int == hex_val(b) && v < 16,
            None => !is_hex(b),
        },
{
    if 0x30 <= b && b <= 0x39 {
        Some(b - 0x30)
    } else if 0x41 <= b && b <= 0x46 {
        Some(b - 0x41 + 10)
    } else if 0x61 <= b && b <= 0x66 {
        Some(b - 0x61 + 10)
    } else {
        None
    }
}

/// Appends the UTF-8 encoding of a basic-plane scalar to `out`.
fn push_scalar_utf8(out: &mut Vec<u8>, cp: u32)
    requires
        cp <= 0xffff,
        !(0xd800 <= cp <= 0xdfff),
    ensures
        final(out)@ == old(out)@ + encode_scalar(cp),
{
    if cp <= 0x7f {
        out.push((cp & 0x7f) as u8);
        proof {
            assert(out@ =~= old(out)@ + encode_scalar(cp));
        }
    } else if cp <= 0x7ff {
        out.push(0xc0 | ((cp >> 6) & 0x1f) as u8);
        out.push(0x80 | (cp & 0x3f) as u8);
        proof {
            assert(out@ =~= old(out)@ + encode_scalar(cp));
        }
    } else {
        out.push(0xe0 | ((cp >> 12) & 0x0f) as u8);
        out.push(0x80 | ((cp >> 6) & 0x3f) as u8);
        out.push(0x80 | (cp & 0x3f) as u8);
        proof {
            assert(out@ =~= old(out)@ + encode_scalar(cp));
        }
    }
}

/// Reads string contents up to the closing quote, resolving escapes.
pub fn scan_str_exec(s: &[u8], i: usize) -> (r: Option<(Vec<u8>, usize)>)
    requires
        i <= s@.len(),
    ensures
        match r {
            Some((cs, j)) => scan_str(s@, i as int) == Some((cs@, j as int)) && i < j <= s@.len(),
            None => scan_str(s@, i as int) is None,
        },
{
    let n = s.len();
    let mut out: Vec<u8> = Vec::new();
    let mut j = i;
    proof {
        if scan_str(s@, i as int) is Some {
            let (rest, end) = scan_str(s@, i as int).unwrap();
            assert(Seq::<u8>::empty() + rest =~= rest);
        }
    }
    while j < n
        invariant
            i <= j <= n,
            n == s@.len(),
            match scan_str(s@, j as int) {
                Some((rest, end)) => scan_str(s@, i as int) == Some((out@ + rest, end)),
                None => scan_str(s@, i as int) is None,
            },
        decreases n - j,
    {
        let b = s[j];
        if b == 0x22 {
            proof {
                assert(out@ + Seq::<u8>::empty() =~= out@);
            }
            return Some((out, j + 1));
        }
        if b == 0x5c {
            if n - j < 2 {
                return None;
            }
            let e = s[j + 1];
            if simple_esc_byte(e) {
                let ghost out0 = out@;
                out.push(esc_char_byte_exec(e));
                proof {
                    lemma_scan_str(s@, j as int + 2);
                    if scan_str(s@, j as int + 2) is Some {
                        let (rest, end) = scan_str(s@, j as int + 2).unwrap();
                        assert(out@ =~= out0 + seq![esc_char_byte(s@[j as int + 1])]);
                        assert(out0 + (seq![esc_char_byte(s@[j as int + 1])] + rest) =~= out@
                            + rest);
                    }
                }
                j += 2;
            } else if e == 0x75 {
                if n - j < 6 {
                    return None;
                }
                let v2 = match hex_val_exec(s[j + 2]) {
                    Some(v) => v,
                    None => {
                        return None;
                    },
                };
                let v3 = match hex_val_exec(s[j + 3]) {
                    Some(v) => v,
                    None => {
                        return None;
                    },
                };
                let v4 = match hex_val_exec(s[j + 4]) {
                    Some(v) => v,
                    None => {
                        return None;
                    },
                };
                let v5 = match hex_val_exec(s[j + 5]) {
                    Some(v) => v,
                    None => {
                        return None;
                    },
                };
                let cp: u32 = (v2 as u32) * 0x1000 + (v3 as u32) * 0x100 + (v4 as u32) * 0x10 + (
                v5 as u32);
                proof {
                    assert(cp as int == hex4_val(
                        s@[j as int + 2],
                        s@[j as int + 3],
                        s@[j as int + 4],
                        s@[j as int + 5],
                    ));
                }
                if 0xd800 <= cp && cp <= 0xdfff {
                    return None;
                }
                let ghost out0 = out@;
                push_scalar_utf8(&mut out, cp);
                proof {
                    lemma_scan_str(s@, j as int + 6);
                    if scan_str(s@, j as int + 6) is Some {
                        let (rest, end) = scan_str(s@, j as int + 6).unwrap();
                        assert(out@ =~= out0 + encode_scalar(cp));
                        assert(out0 + (encode_scalar(cp) + rest) =~= out@ + rest);
                    }
                }
                j += 6;
            } else {
                return None;
            }
        } else if b < 0x20 {
            return None;
        } else {
            let ghost out0 = out@;
            out.push(b);
            proof {
                lemma_scan_str(s@, j as int + 1);
                if scan_str(s@, j as int + 1) is Some {
                    let (rest, end) = scan_str(s@, j as int + 1).unwrap();
                    assert(out@ =~= out0 + seq![s@[j as int]]);
                    assert(out0 + (seq![s@[j as int]] + rest) =~= out@ + rest);
                }
            }
            j += 1;
        }
    }
    None
}

/// Parses an integer at `i`, whose first byte is a minus sign or digit.
fn parse_int_exec(s: &[u8], i: usize) -> (r: Option<(i64, usize)>)
    requires
        i < s@.len(),
        s@[i as int] == 0x2d || is_digit(s@[i as int]),
    ensures
        match r {
            Some((x, j)) => parse_int(s@, i as int) == Some((JsonV::Int(x as int), j as int)) && i
                < j <= s@.len(),
            None => parse_int(s@, i as int) is None,
        },
{
    let n = s.len();
    let neg = s[i] == 0x2d;
    let d0 = if neg {
        i + 1
    } else {
        i
    };
    let mut j = d0;
    let mut acc: u64 = 0;
    let mut over = false;
    while j < n && digit_byte(s[j])
        invariant
            d0 <= j <= n,
            n == s@.len(),
            d0 == if neg {
                i + 1
            } else {
                i as int
            },
            i < n,
            scan_digits(s@, d0 as int) == scan_digits(s@, j as int),
            forall|k: int| d0 <= k < j ==> is_digit(#[trigger] s@[k]),
            !over ==> acc == digits_val(s@.subrange(d0 as int, j as int)),
            over ==> digits_val(s@.subrange(d0 as int, j as int)) > u64::MAX,
        decreases n - j,
    {
        let d: u8 = s[j] - 0x30;
        proof {
            assert(s@.subrange(d0 as int, j as int + 1).drop_last() =~= s@.subrange(
                d0 as int,
                j as int,
            ));
            assert(s@.subrange(d0 as int, j as int + 1).last() == s@[j as int]);
            lemma_digits_val_nonneg(s@.subrange(d0 as int, j as int));
        }
        if !over {
            if acc > (u64::MAX - d as u64) / 10 {
                over = true;
                proof {
                    assert(acc * 10 + d > u64::MAX) by (nonlinear_arith)
                        requires
                            acc > (u64::MAX - d as u64) / 10,
                            0 <= d < 10,
                            u64::MAX == (u64::MAX - d as u64) / 10 * 10 + (u64::MAX - d as u64) % 10
                                + d,
                            0 <= (u64::MAX - d as u64) % 10 < 10,
                    ;
                }
            } else {
                proof {
                    assert(acc * 10 + d <= u64::MAX) by (nonlinear_arith)
                        requires
                            acc <= (u64::MAX - d as u64) / 10,
                            0 <= d < 10,
                            u64::MAX - d as u64 >= (u64::MAX - d as u64) / 10 * 10,
                    ;
                }
                acc = acc * 10 + d as u64;
            }
        } else {
            proof {
                let prev = digits_val(s@.subrange(d0 as int, j as int));
                assert(prev * 10 + d > u64::MAX) by (nonlinear_arith)
                    requires
                        prev > u64::MAX,
                        d >= 0,
                ;
            }
        }
        j += 1;
    }
    proof {
        vstd::arithmetic::div_mod::lemma_fundamental_div_mod((u64::MAX - 0) as int, 10);
    }
    if j == d0 {
        return None;
    }
    proof {
        lemma_digits_val_nonneg(s@.subrange(d0 as int, j as int));
    }
    if over {
        proof {
            let m = digits_val(s@.subrange(d0 as int, j as int));
            assert(m > u64::MAX);
            assert(m > i64::MAX);
            assert(-m < i64::MIN);
        }
        return None;
    }
    if neg {
        if acc > 0x8000000000000000u64 {
            return None;
        }
        if acc == 0x8000000000000000u64 {
            return Some((i64::MIN, j));
        }
        return Some((-(acc as i64), j));
    }
    if acc > 0x7fffffffffffffffu64 {
        return None;
    }
    Some((acc as i64, j))
}

/// Parses a quoted string at `i`.
fn parse_string_exec(s: &[u8], i: usize) -> (r: Option<(Vec<u8>, usize)>)
    requires
        i < s@.len(),
        s@[i as int] == 0x22,
    ensures
        match r {
            Some((cs, j)) => parse_string(s@, i as int) == Some((cs@, j as int)) && i < j
                <= s@.len(),
            None => parse_string(s@, i as int) is None,
        },
{
    let n = s.len();
    scan_str_exec(s, i + 1)
}

/// Parses one JSON value whose first byte is at `i`.
#[verifier::rlimit(100)]
pub fn parse_value_exec(s: &[u8], i: usize) -> (r: Option<(Json, usize)>)
    requires
        i <= s@.len(),
    ensures
        match r {
            Some((v, j)) => parse_value(s@, i as int) == Some((v@, j as int)) && i < j <= s@.len(),
            None => parse_value(s@, i as int) is None,
        },
    decreases s@.len() - i, 0int,
{
    let n = s.len();
    if i >= n {
        return None;
    }
    let b = s[i];
    if b == 0x6e {
        if n - i >= 4 && s[i + 1] == 0x75 && s[i + 2] == 0x6c && s[i + 3] == 0x6c {
            proof {
                assert(s@.subrange(i as int, i as int + 4) =~= null_bytes());
            }
            Some((Json::Null, i + 4))
        } else {
            proof {
                if has_at(s@, i as int, null_bytes()) {
                    assert(s@.subrange(i as int, i as int + 4)[1] == s@[i as int + 1]);
                    assert(s@.subrange(i as int, i as int + 4)[2] == s@[i as int + 2]);
                    assert(s@.subrange(i as int, i as int + 4)[3] == s@[i as int + 3]);
                }
            }
            None
        }
    } else if b == 0x74 {
        if n - i >= 4 && s[i + 1] == 0x72 && s[i + 2] == 0x75 && s[i + 3] == 0x65 {
            proof {
                assert(s@.subrange(i as int, i as int + 4) =~= true_bytes());
            }
            Some((Json::Bool(true), i + 4))
        } else {
            proof {
                if has_at(s@, i as int, true_bytes()) {
                    assert(s@.subrange(i as int, i as int + 4)[1] == s@[i as int + 1]);
                    assert(s@.subrange(i as int, i as int + 4)[2] == s@[i as int + 2]);
                    assert(s@.subrange(i as int, i as int + 4)[3] == s@[i as int + 3]);
                }
            }
            None
        }
    } else if b == 0x66 {
        if n - i >= 5 && s[i + 1] == 0x61 && s[i + 2] == 0x6c && s[i + 3] == 0x73 && s[i + 4]
            == 0x65 {
            proof {
                assert(s@.subrange(i as int, i as int + 5) =~= false_bytes());
            }
            Some((Json::Bool(false), i + 5))
        } else {
            proof {
                if has_at(s@, i as int, false_bytes()) {
                    assert(s@.subrange(i as int, i as int + 5)[1] == s@[i as int + 1]);
                    assert(s@.subrange(i as int, i as int + 5)[2] == s@[i as int + 2]);
                    assert(s@.subrange(i as int, i as int + 5)[3] == s@[i as int + 3]);
                    assert(s@.subrange(i as int, i as int + 5)[4] == s@[i as int + 4]);
                }
            }
            None
        }
    } else if b == 0x22 {
        match parse_string_exec(s, i) {
            Some((cs, j)) => Some((Json::Str(cs), j)),
            None => None,
        }
    } else if b == 0x2d || (0x30 <= b && b <= 0x39) {
        match parse_int_exec(s, i) {
            Some((x, j)) => Some((Json::Int(x), j)),
            None => None,
        }
    } else if b == 0x5b {
        let j = skip_ws_exec(s, i + 1);
        proof {
            assert(step_idx(s@, i as int, skip_ws(s@, i as int + 1)) == j as int);
        }
        if j < n && s[j] == 0x5d {
            let v = Json::Arr(Vec::new());
            proof {
                assert(views_of(Seq::<Json>::empty()) =~= Seq::<JsonV>::empty());
            }
            Some((v, j + 1))
        } else {
            match parse_items_exec(s, j) {
                None => None,
                Some((items, end)) => Some((Json::Arr(items), end)),
            }
        }
    } else if b == 0x7b {
        let j = skip_ws_exec(s, i + 1);
        proof {
            assert(step_idx(s@, i as int, skip_ws(s@, i as int + 1)) == j as int);
        }
        if j < n && s[j] == 0x7d {
            let v = Json::Obj(Vec::new());
            proof {
                assert(member_views(Seq::<(Vec<u8>, Json)>::empty()) =~= Seq::<
                    (Seq<u8>, JsonV),
                >::empty());
            }
            Some((v, j + 1))
        } else {
            match parse_members_exec(s, j) {
                None => None,
                Some((ms, end)) => Some((Json::Obj(ms), end)),
            }
        }
    } else {
        None
    }
}

/// Parses a non-empty `]`-terminated list of values at `i`.
fn parse_items_exec(s: &[u8], i: usize) -> (r: Option<(Vec<Json>, usize)>)
    requires
        i <= s@.len(),
    ensures
        match r {
            Some((items, j)) => parse_items(s@, i as int) == Some((views_of(items@), j as int))
                && i < j <= s@.len(),
            None => parse_items(s@, i as int) is None,
        },
    decreases s@.len() - i, 1int,
{
    let n = s.len();
    if i >= n {
        return None;
    }
    match parse_value_exec(s, i) {
        None => None,
        Some((v, j)) => {
            let k = skip_ws_exec(s, j);
            if k < n && s[k] == 0x2c {
                let k2 = skip_ws_exec(s, k + 1);
                proof {
                    assert(step_idx(s@, i as int, skip_ws(s@, k as int + 1)) == k2 as int);
                }
                match parse_items_exec(s, k2) {
                    None => None,
                    Some((rest, end)) => {
                        let ghost rest0 = rest@;
                        let mut items: Vec<Json> = Vec::new();
                        items.push(v);
                        let mut rest = rest;
                        items.append(&mut rest);
                        proof {
                            assert(items@ =~= seq![v] + rest0);
                            lemma_views_of(items@);
                            lemma_views_of(rest0);
                            assert(views_of(items@) =~= seq![v@] + views_of(rest0));
                        }
                        Some((items, end))
                    },
                }
            } else if k < n && s[k] == 0x5d {
                let mut items: Vec<Json> = Vec::new();
                items.push(v);
                proof {
                    lemma_views_of(items@);
                    assert(views_of(items@) =~= seq![v@]);
                }
                Some((items, k + 1))
            } else {
                None
            }
        },
    }
}

/// Parses a non-empty `}`-terminated list of `"key": value` members at `i`.
fn parse_members_exec(s: &[u8], i: usize) -> (r: Option<(Vec<(Vec<u8>, Json)>, usize)>)
    requires
        i <= s@.len(),
    ensures
        match r {
            Some((ms, j)) => parse_members(s@, i as int) == Some((member_views(ms@), j as int))
                && i < j <= s@.len(),
            None => parse_members(s@, i as int) is None,
        },
    decreases s@.len() - i, 1int,
{
    let n = s.len();
    if i >= n {
        return None;
    }
    if s[i] != 0x22 {
        return None;
    }
    match parse_string_exec(s, i) {
        None => None,
        Some((key, j)) => {
            let k = skip_ws_exec(s, j);
            if !(k < n && s[k] == 0x3a) {
                return None;
            }
            let k2 = skip_ws_exec(s, k + 1);
            proof {
                assert(step_idx(s@, i as int, skip_ws(s@, k as int + 1)) == k2 as int);
            }
            match parse_value_exec(s, k2) {
                None => None,
                Some((v, j2)) => {
                    let k3 = skip_ws_exec(s, j2);
                    if k3 < n && s[k3] == 0x2c {
                        let k4 = skip_ws_exec(s, k3 + 1);
                        proof {
                            assert(step_idx(s@, i as int, skip_ws(s@, k3 as int + 1)) == k4 as int);
                        }
                        match parse_members_exec(s, k4) {
                            None => None,
                            Some((rest, end)) => {
                                let ghost rest0 = rest@;
                                let mut ms: Vec<(Vec<u8>, Json)> = Vec::new();
                                ms.push((key, v));
                                let mut rest = rest;
                                ms.append(&mut rest);
                                proof {
                                    assert(ms@ =~= seq![(key, v)] + rest0);
                                    lemma_member_views(ms@);
                                    lemma_member_views(rest0);
                                    assert(member_views(ms@) =~= seq![(key@, v@)] + member_views(
                                        rest0,
                                    ));
                                }
                                Some((ms, end))
                            },
                        }
                    } else if k3 < n && s[k3] == 0x7d {
                        let mut ms: Vec<(Vec<u8>, Json)> = Vec::new();
                        ms.push((key, v));
                        proof {
                            lemma_member_views(ms@);
                            assert(member_views(ms@) =~= seq![(key@, v@)]);
                        }
                        Some((ms, k3 + 1))
                    } else {
                        None
                    }
                },
            }
        },
    }
}

/// Parses a complete JSON document spanning the whole input.
pub fn parse_json(s: &[u8]) -> (r: Option<Json>)
    ensures
        match r {
            Some(v) => spec_parse_json(s@) == Some(v@),
            None => spec_parse_json(s@) is None,
        },
{
    let i = skip_ws_exec(s, 0);
    match parse_value_exec(s, i) {
        None => None,
        Some((v, j)) => {
            let k = skip_ws_exec(s, j);
            if k == s.len() {
                Some(v)
            } else {
                None
            }
        },
    }
}

/// The value of the first member with the given key, if any.
pub open spec fn lookup(ms: Seq<(Seq<u8>, JsonV)>, key: Seq<u8>) -> Option<JsonV>
    decreases ms.len(),
{
    if ms.len() == 0 {
        None
    } else if ms[0].0 == key {
        Some(ms[0].1)
    } else {
        lookup(ms.drop_first(), key)
    }
}

/// Finds the first member of an object with the given (ASCII) key.
pub fn obj_get<'a>(ms: &'a Vec<(Vec<u8>, Json)>, key: &str) -> (r: Option<&'a Json>)
    requires
        key.is_ascii(),
    ensures
        match r {
            Some(v) => lookup(member_views(ms@), crate::textenc::ascii_bytes(key@)) == Some(v@),
            None => lookup(member_views(ms@), crate::textenc::ascii_bytes(key@)) is None,
        },
{
    proof {
        vstd::string::is_ascii_spec_bytes(key);
        lemma_member_views(ms@);
    }
    let kb = key.as_bytes();
    proof {
        assert(kb@ =~= crate::textenc::ascii_bytes(key@));
    }
    let n = ms.len();
    proof {
        assert(member_views(ms@).skip(0) =~= member_views(ms@));
    }
    let mut idx: usize = 0;
    while idx < n
        invariant
            idx <= n,
            n == ms@.len(),
            kb@ == crate::textenc::ascii_bytes(key@),
            key.is_ascii(),
            lookup(member_views(ms@), kb@) == lookup(
                member_views(ms@).skip(idx as int),
                kb@,
            ),
        decreases n - idx,
    {
        let pair = &ms[idx];
        proof {
            lemma_member_views(ms@);
            assert(member_views(ms@).skip(idx as int)[0] == member_views(ms@)[idx as int]);
        }
        if crate::textenc::bytes_eq(pair.0.as_slice(), kb) {
            return Some(&pair.1);
        }
        proof {
            assert(member_views(ms@).skip(idx as int).drop_first() =~= member_views(ms@).skip(
                idx as int + 1,
            ));
        }
        idx += 1;
    }
    proof {
        assert(member_views(ms@).skip(n as int) =~= Seq::<(Seq<u8>, JsonV)>::empty());
    }
    None
}

/// A byte that may appear inside a string without escaping: not a quote,
/// not a backslash, not a raw control byte.
pub open spec fn str_safe(b: u8) -> bool {
    b >= 0x20 && b != 0x22 && b != 0x5c
}

/// Every byte of `s` may appear inside a string body.
pub open spec fn json_safe(s: Seq<u8>) -> bool {
    forall|i: int| 0 <= i < s.len() ==> str_safe(#[trigger] s[i])
}

/// Scanning string contents over a run of safe bytes, up to a closing
/// quote, yields exactly that run.
pub proof fn lemma_scan_str_over(s: Seq<u8>, i: int, j: int)
    requires
        0 <= i <= j < s.len(),
        s[j] == 0x22,
        forall|k: int| i <= k < j ==> str_safe(#[trigger] s[k]),
    ensures
        scan_str(s, i) == Some((s.subrange(i, j), j + 1)),
    decreases j - i,
{
    if i < j {
        lemma_scan_str_over(s, i + 1, j);
        assert(s.subrange(i, j) =~= seq![s[i]] + s.subrange(i + 1, j));
    } else {
        assert(s.subrange(i, j) =~= Seq::<u8>::empty());
    }
}

/// Scanning digits over a digit run bounded by a non-digit finds the end
/// of the run.
pub proof fn lemma_scan_digits_over(s: Seq<u8>, i: int, j: int)
    requires
        0 <= i <= j <= s.len(),
        forall|k: int| i <= k < j ==> is_digit(#[trigger] s[k]),
        j == s.len() || !is_digit(s[j]),
    ensures
        scan_digits(s, i) == j,
    decreases j - i,
{
    if i < j {
        lemma_scan_digits_over(s, i + 1, j);
    }
}

/// A quoted safe byte run parses as a string with exactly those contents.
pub proof fn lemma_parse_string_at(s: Seq<u8>, i: int, content: Seq<u8>)
    requires
        0 <= i,
        i + content.len() + 2 <= s.len(),
        s[i] == 0x22,
        s[i + 1 + content.len()] == 0x22,
        json_safe(content),
        s.subrange(i + 1, i + 1 + content.len()) == content,
    ensures
        parse_string(s, i) == Some((content, i + content.len() + 2)),
{
    assert forall|k: int| i + 1 <= k < i + 1 + content.len() implies str_safe(#[trigger] s[k]) by {
        assert(s[k] == content[k - i - 1]);
    }
    lemma_scan_str_over(s, i + 1, i + 1 + content.len());
}

/// The wire form of one string byte: itself when it may stand raw, a
/// two-byte escape for quote, backslash and the named control characters,
/// and a `\u00XX` escape for the remaining control bytes.
pub open spec fn esc_byte(b: u8) -> Seq<u8> {
    if b == 0x22 {
        seq![0x5cu8, 0x22u8]
    } else if b == 0x5c {
        seq![0x5cu8, 0x5cu8]
    } else if b == 0x08 {
        seq![0x5cu8, 0x62u8]
    } else if b == 0x0c {
        seq![0x5cu8, 0x66u8]
    } else if b == 0x0a {
        seq![0x5cu8, 0x6eu8]
    } else if b == 0x0d {
        seq![0x5cu8, 0x72u8]
    } else if b == 0x09 {
        seq![0x5cu8, 0x74u8]
    } else if b < 0x20 {
        seq![
            0x5cu8,
            0x75u8,
            0x30u8,
            0x30u8,
            crate::textenc::hex_digit(b / 16),
            crate::textenc::hex_digit(b % 16),
        ]
    } else {
        seq![b]
    }
}

/// The wire form of a string body: each of its bytes escaped as needed.
pub open spec fn esc_bytes(s: Seq<u8>) -> Seq<u8>
    decreases s.len(),
{
    if s.len() == 0 {
        Seq::empty()
    } else {
        esc_bytes(s.drop_last()) + esc_byte(s.last())
    }
}

/// `esc_bytes` also peels off its first byte's escape.
pub proof fn lemma_esc_bytes_first(s: Seq<u8>)
    requires
        s.len() > 0,
    ensures
        esc_bytes(s) == esc_byte(s[0]) + esc_bytes(s.drop_first()),
    decreases s.len(),
{
    if s.len() == 1 {
        assert(s.drop_last() =~= Seq::<u8>::empty());
        assert(s.drop_first() =~= Seq::<u8>::empty());
        assert(esc_bytes(s) =~= esc_byte(s[0]) + esc_bytes(s.drop_first()));
    } else {
        lemma_esc_bytes_first(s.drop_last());
        assert(s.drop_first().drop_last() =~= s.drop_last().drop_first());
        assert(s.drop_first().last() == s.last());
        assert(s.drop_last()[0] == s[0]);
        assert((esc_byte(s[0]) + esc_bytes(s.drop_last().drop_first())) + esc_byte(s.last())
            =~= esc_byte(s[0]) + (esc_bytes(s.drop_last().drop_first()) + esc_byte(s.last())));
        assert(esc_bytes(s.drop_first()) == esc_bytes(s.drop_first().drop_last()) + esc_byte(
            s.drop_first().last(),
        ));
    }
}

/// Scanning over the escaped form of a body, up to a closing quote,
/// recovers exactly the body.
#[verifier::rlimit(100)]
pub proof fn lemma_scan_str_esc(s: Seq<u8>, i: int, content: Seq<u8>)
    requires
        0 <= i,
        i + esc_bytes(content).len() < s.len(),
        s.subrange(i, i + esc_bytes(content).len()) == esc_bytes(content),
        s[i + esc_bytes(content).len()] == 0x22,
    ensures
        scan_str(s, i) == Some((content, i + esc_bytes(content).len() + 1)),
    decreases content.len(),
{
    let el = esc_bytes(content).len() as int;
    if content.len() == 0 {
        assert(content =~= Seq::<u8>::empty());
    } else {
        lemma_esc_bytes_first(content);
        let c0 = content[0];
        let e0 = esc_byte(c0);
        let e0l = e0.len() as int;
        let rest = esc_bytes(content.drop_first());
        assert(esc_bytes(content) == e0 + rest);
        assert(el == e0l + rest.len());
        assert forall|t: int|
            0 <= t < rest.len() implies s.subrange(i + e0l, i + el)[t] == rest[t] by {
            assert(s.subrange(i + e0l, i + el)[t] == s[i + e0l + t]);
            assert(s.subrange(i, i + el)[e0l + t] == s[i + e0l + t]);
            assert((e0 + rest)[e0l + t] == rest[t]);
        }
        assert(s.subrange(i + e0l, i + el) =~= rest);
        lemma_scan_str_esc(s, i + e0l, content.drop_first());
        if c0 == 0x22 || c0 == 0x5c || c0 == 0x08 || c0 == 0x0c || c0 == 0x0a || c0 == 0x0d || c0
            == 0x09 {
            assert(s.subrange(i, i + el)[0] == s[i]);
            assert(s.subrange(i, i + el)[1] == s[i + 1]);
            assert(s[i] == e0[0]);
            assert(s[i + 1] == e0[1]);
            assert(s[i] == 0x5c);
            assert(is_simple_esc(s[i + 1]));
            assert(esc_char_byte(s[i + 1]) == c0);
            assert(seq![c0] + content.drop_first() =~= content);
        } else if c0 < 0x20 {
            assert(s.subrange(i, i + el)[0] == s[i]);
            assert(s.subrange(i, i + el)[1] == s[i + 1]);
            assert(s.subrange(i, i + el)[2] == s[i + 2]);
            assert(s.subrange(i, i + el)[3] == s[i + 3]);
            assert(s.subrange(i, i + el)[4] == s[i + 4]);
            assert(s.subrange(i, i + el)[5] == s[i + 5]);
            assert(s[i] == e0[0]);
            assert(s[i + 1] == e0[1]);
            assert(s[i + 2] == e0[2]);
            assert(s[i + 3] == e0[3]);
            assert(s[i + 4] == e0[4]);
            assert(s[i + 5] == e0[5]);
            assert(s[i] == 0x5c);
            assert(s[i + 1] == 0x75);
            assert(s[i + 2] == 0x30 && s[i + 3] == 0x30);
            assert(s[i + 4] == crate::textenc::hex_digit(c0 / 16));
            assert(s[i + 5] == crate::textenc::hex_digit(c0 % 16));
            assert(is_hex(s[i + 2]) && is_hex(s[i + 3]) && is_hex(s[i + 4]) && is_hex(s[i + 5]));
            let cp = hex4_val(s[i + 2], s[i + 3], s[i + 4], s[i + 5]);
            vstd::arithmetic::div_mod::lemma_fundamental_div_mod(c0 as int, 16);
            assert(hex_val(s[i + 4]) == c0 / 16);
            assert(hex_val(s[i + 5]) == c0 % 16);
            assert(cp == c0);
            assert(!(0xd800 <= cp <= 0xdfff));
            let cpu = cp as u32;
            assert((cpu & 0x7f) == cpu) by (bit_vector)
                requires
                    cpu < 0x20,
            ;
            assert(encode_scalar(cpu) =~= seq![c0]);
            assert(encode_scalar(cpu) + content.drop_first() =~= content);
        } else {
            assert(s.subrange(i, i + el)[0] == s[i]);
            assert(s[i] == e0[0]);
            assert(s[i] == c0);
            assert(seq![c0] + content.drop_first() =~= content);
        }
    }
}

/// A quoted escaped body parses back to the body itself.
pub proof fn lemma_parse_string_esc_at(s: Seq<u8>, i: int, content: Seq<u8>)
    requires
        0 <= i < s.len(),
        s[i] == 0x22,
        i + 1 + esc_bytes(content).len() < s.len(),
        s.subrange(i + 1, i + 1 + esc_bytes(content).len()) == esc_bytes(content),
        s[i + 1 + esc_bytes(content).len()] == 0x22,
    ensures
        parse_string(s, i) == Some((content, i + esc_bytes(content).len() + 2)),
{
    lemma_scan_str_esc(s, i + 1, content);
}

/// Appends the escaped wire form of a string's UTF-8 bytes to `out`.
pub fn push_esc(out: &mut Vec<u8>, s: &str)
    ensures
        final(out)@ == old(out)@ + esc_bytes(vstd::utf8::encode_utf8(s@)),
{
    let bytes = s.as_bytes();
    let n = bytes.len();
    let mut i: usize = 0;
    while i < n
        invariant
            i <= n,
            n == bytes@.len(),
            bytes@ == vstd::utf8::encode_utf8(s@),
            out@ == old(out)@ + esc_bytes(bytes@.take(i as int)),
        decreases n - i,
    {
        let b = bytes[i];
        if b == 0x22 {
            out.push(0x5c);
            out.push(0x22);
        } else if b == 0x5c {
            out.push(0x5c);
            out.push(0x5c);
        } else if b == 0x08 {
            out.push(0x5c);
            out.push(0x62);
        } else if b == 0x0c {
            out.push(0x5c);
            out.push(0x66);
        } else if b == 0x0a {
            out.push(0x5c);
            out.push(0x6e);
        } else if b == 0x0d {
            out.push(0x5c);
            out.push(0x72);
        } else if b == 0x09 {
            out.push(0x5c);
            out.push(0x74);
        } else if b < 0x20 {
            out.push(0x5c);
            out.push(0x75);
            out.push(0x30);
            out.push(0x30);
            out.push(crate::textenc::hex_digit_byte(b / 16));
            out.push(crate::textenc::hex_digit_byte(b % 16));
        } else {
            out.push(b);
        }
        proof {
            assert(bytes@.take(i as int + 1).drop_last() =~= bytes@.take(i as int));
            assert(bytes@.take(i as int + 1).last() == bytes@[i as int]);
            assert(out@ =~= old(out)@ + esc_bytes(bytes@.take(i as int + 1)));
        }
        i += 1;
    }
    proof {
        assert(bytes@.take(n as int) =~= bytes@);
    }
}

/// The decimal rendering of `n`, bounded by a non-digit, parses as the
/// integer `n`.
pub proof fn lemma_parse_int_at(s: Seq<u8>, i: int, n: nat)
    requires
        0 <= i,
        i + dec_digits(n).len() <= s.len(),
        s.subrange(i, i + dec_digits(n).len()) == dec_digits(n),
        i + dec_digits(n).len() == s.len() || !is_digit(s[i + dec_digits(n).len()]),
        n <= 0x7fffffffffffffff,
    ensures
        parse_int(s, i) == Some((JsonV::Int(n as int), i + dec_digits(n).len())),
{
    crate::textenc::lemma_dec_digits(n);
    let dd = dec_digits(n);
    assert forall|k: int| i <= k < i + dd.len() implies is_digit(#[trigger] s[k]) by {
        assert(s[k] == dd[k - i]);
    }
    assert(s[i] == dd[0]);
    lemma_scan_digits_over(s, i, i + dd.len());
    assert(s.subrange(i, i + dd.len()) == dd);
    assert(digits_val(s.subrange(i, i + dd.len())) == n);
}

} // verus!
