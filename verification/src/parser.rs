//! Tolerant line-oriented parser for the launch-item dump format.
//!
//! The dump is a loosely delimited text blob: a record starts at a boundary
//! line (one that, trimmed, starts with `#` and ends with `:`), and the lines
//! that follow carry labelled fields (`Name:`, `URL:`).  Malformed fragments
//! are skipped, never fatal.

use vstd::prelude::*;
use vstd::slice::slice_subrange;
use vstd::slice::slice_to_vec;
use vstd::string::StringSliceAdditionalSpecFns;

verus! {

// ---------------------------------------------------------------------------
// Bytes and whitespace
// ---------------------------------------------------------------------------

/// ASCII whitespace: tab, line feed, vertical tab, form feed, carriage
/// return, space.
pub open spec fn spec_is_ws(b: u8) -> bool {
    b == 9 || b == 10 || b == 11 || b == 12 || b == 13 || b == 32
}

/// The byte sequence with its leading whitespace removed.
pub open spec fn spec_trim_start(s: Seq<u8>) -> Seq<u8>
    decreases s.len(),
{
    if s.len() > 0 && spec_is_ws(s[0]) {
        spec_trim_start(s.skip(1))
    } else {
        s
    }
}

/// The byte sequence with its trailing whitespace removed.
pub open spec fn spec_trim_end(s: Seq<u8>) -> Seq<u8>
    decreases s.len(),
{
    if s.len() > 0 && spec_is_ws(s.last()) {
        spec_trim_end(s.drop_last())
    } else {
        s
    }
}

/// The byte sequence with whitespace removed at both ends.
pub open spec fn spec_trim(s: Seq<u8>) -> Seq<u8> {
    spec_trim_end(spec_trim_start(s))
}

fn is_ws(b: u8) -> (r: bool)
    ensures
        r == spec_is_ws(b),
{
    b == 9 || b == 10 || b == 11 || b == 12 || b == 13 || b == 32
}

proof fn lemma_trim_start_at(s: Seq<u8>, i: int)
    requires
        0 <= i <= s.len(),
        forall|j: int| 0 <= j < i ==> spec_is_ws(s[j]),
        i == s.len() || !spec_is_ws(s[i]),
    ensures
        spec_trim_start(s) == s.skip(i),
    decreases i,
{
    if i == 0 {
        assert(s.skip(0) == s);
    } else {
        assert(spec_is_ws(s[0]));
        lemma_trim_start_at(s.skip(1), i - 1);
        assert(s.skip(1).skip(i - 1) == s.skip(i));
    }
}

proof fn lemma_trim_end_at(s: Seq<u8>, i: int)
    requires
        0 <= i <= s.len(),
        forall|j: int| i <= j < s.len() ==> spec_is_ws(s[j]),
        i == 0 || !spec_is_ws(s[i - 1]),
    ensures
        spec_trim_end(s) == s.take(i),
    decreases s.len() - i,
{
    if i == s.len() {
        if s.len() == 0 || !spec_is_ws(s.last()) {
            assert(s.take(i) == s);
        } else {
            assert(false);
        }
    } else {
        assert(spec_is_ws(s.last()));
        assert(s.drop_last() == s.take(s.len() - 1));
        lemma_trim_end_at(s.drop_last(), i);
        assert(s.drop_last().take(i) == s.take(i));
    }
}

/// Leading-whitespace trim over a byte slice.
fn trim_start_bytes<'a>(s: &'a [u8]) -> (r: &'a [u8])
    ensures
        r@ == spec_trim_start(s@),
{
    let n = s.len();
    let mut i: usize = 0;
    while i < n && is_ws(s[i])
        invariant
            0 <= i <= n,
            n == s@.len(),
            forall|j: int| 0 <= j < i ==> spec_is_ws(s@[j]),
        decreases n - i,
    {
        i = i + 1;
    }
    proof {
        lemma_trim_start_at(s@, i as int);
    }
    slice_subrange(s, i, n)
}

/// Trailing-whitespace trim over a byte slice.
fn trim_end_bytes<'a>(s: &'a [u8]) -> (r: &'a [u8])
    ensures
        r@ == spec_trim_end(s@),
{
    let mut i = s.len();
    while i > 0 && is_ws(s[i - 1])
        invariant
            0 <= i <= s@.len(),
            forall|j: int| i <= j < s@.len() ==> spec_is_ws(s@[j]),
        decreases i,
    {
        i = i - 1;
    }
    proof {
        lemma_trim_end_at(s@, i as int);
    }
    slice_subrange(s, 0, i)
}

/// Whitespace trim at both ends of a byte slice.
fn trim_bytes<'a>(s: &'a [u8]) -> (r: &'a [u8])
    ensures
        r@ == spec_trim(s@),
{
    trim_end_bytes(trim_start_bytes(s))
}

/// Whether `p` is a prefix of `s`.
pub open spec fn spec_has_prefix(s: Seq<u8>, p: Seq<u8>) -> bool {
    p.len() <= s.len() && s.subrange(0, p.len() as int) == p
}

fn has_prefix(s: &[u8], p: &[u8]) -> (r: bool)
    ensures
        r == spec_has_prefix(s@, p@),
{
    if p.len() > s.len() {
        assert(!spec_has_prefix(s@, p@));
        return false;
    }
    let n = p.len();
    let mut i: usize = 0;
    while i < n
        invariant
            0 <= i <= n,
            n == p@.len() <= s@.len(),
            forall|j: int| 0 <= j < i ==> s@[j] == p@[j],
        decreases n - i,
    {
        if s[i] != p[i] {
            assert(s@.subrange(0, n as int)[i as int] != p@[i as int]);
            return false;
        }
        i = i + 1;
    }
    assert(s@.subrange(0, n as int) =~= p@);
    true
}

/// Whether two byte slices hold the same bytes.
fn bytes_eq(a: &[u8], b: &[u8]) -> (r: bool)
    ensures
        r == (a@ == b@),
{
    if a.len() != b.len() {
        assert(a@ != b@);
        return false;
    }
    let n = a.len();
    let mut i: usize = 0;
    while i < n
        invariant
            0 <= i <= n,
            n == a@.len() == b@.len(),
            forall|j: int| 0 <= j < i ==> a@[j] == b@[j],
        decreases n - i,
    {
        if a[i] != b[i] {
            return false;
        }
        i = i + 1;
    }
    assert(a@ =~= b@);
    true
}

// ---------------------------------------------------------------------------
// Hexadecimal digits and percent-decoding
// ---------------------------------------------------------------------------

/// Numeric value of an ASCII hexadecimal digit (`0-9`, `a-f`, `A-F`), if any.
pub open spec fn spec_hex_value(b: u8) -> Option<u8> {
    if 48 <= b && b <= 57 {
        Some((b - 48) as u8)
    } else if 97 <= b && b <= 102 {
        Some((b - 97 + 10) as u8)
    } else if 65 <= b && b <= 70 {
        Some((b - 65 + 10) as u8)
    } else {
        None
    }
}

pub fn hex_value(byte: u8) -> (r: Option<u8>)
    ensures
        r == spec_hex_value(byte),
{
    if 48 <= byte && byte <= 57 {
        Some(byte - 48)
    } else if 97 <= byte && byte <= 102 {
        Some(byte - 97 + 10)
    } else if 65 <= byte && byte <= 70 {
        Some(byte - 65 + 10)
    } else {
        None
    }
}

/// Percent-decoding over raw bytes.  A `%` followed by two hexadecimal
/// digits becomes the byte they denote; a `%` followed by two other bytes
/// is kept literally together with both bytes; a `%` with fewer than two
/// following bytes is kept literally together with whatever remains.
pub open spec fn spec_percent_decode(s: Seq<u8>) -> Seq<u8>
    decreases s.len(),
{
    if s.len() == 0 {
        Seq::empty()
    } else if s[0] == 37 {
        if s.len() >= 3 {
            match (spec_hex_value(s[1]), spec_hex_value(s[2])) {
                (Some(hi), Some(lo)) => seq![(hi * 16 + lo) as u8] + spec_percent_decode(s.skip(3)),
                _ => seq![37u8, s[1], s[2]] + spec_percent_decode(s.skip(3)),
            }
        } else {
            s
        }
    } else {
        seq![s[0]] + spec_percent_decode(s.skip(1))
    }
}

/// Decodes `%XX` escapes in `input`.  A trailing `%` with fewer than two
/// bytes after it is emitted literally, bytes and all.
pub fn percent_decode(input: &[u8]) -> (r: Vec<u8>)
    ensures
        r@ == spec_percent_decode(input@),
{
    let n = input.len();
    let mut out: Vec<u8> = Vec::new();
    let mut i: usize = 0;
    proof {
        assert(input@.skip(0) == input@);
        assert(out@ + spec_percent_decode(input@) =~= spec_percent_decode(input@));
    }
    while i < n
        invariant
            0 <= i <= n,
            n == input@.len(),
            spec_percent_decode(input@) == out@ + spec_percent_decode(input@.skip(i as int)),
        decreases n - i,
    {
        let ghost rest = input@.skip(i as int);
        assert(rest[0] == input@[i as int]);
        if input[i] == 37 {
            if n - i >= 3 {
                // two bytes follow the `%`
                assert(rest.len() >= 3);
                assert(rest[1] == input@[i + 1]);
                assert(rest[2] == input@[i + 2]);
                let hi = hex_value(input[i + 1]);
                let lo = hex_value(input[i + 2]);
                match (hi, lo) {
                    (Some(h), Some(l)) => {
                        out.push(h * 16 + l);
                    },
                    _ => {
                        out.push(37);
                        out.push(input[i + 1]);
                        out.push(input[i + 2]);
                    },
                }
                proof {
                    assert(rest.skip(3) =~= input@.skip(i + 3));
                }
                i = i + 3;
            } else {
                // trailing escape: emit the remainder literally
                out.push(37);
                if i + 1 < n {
                    assert(rest[1] == input@[i + 1]);
                    out.push(input[i + 1]);
                    assert(out@ =~= out@ + spec_percent_decode(input@.skip(n as int)));
                    proof {
                        assert(rest =~= seq![input@[i as int], input@[i + 1]]);
                    }
                } else {
                    assert(out@ =~= out@ + spec_percent_decode(input@.skip(n as int)));
                    proof {
                        assert(rest =~= seq![input@[i as int]]);
                    }
                }
                i = n;
            }
        } else {
            out.push(input[i]);
            proof {
                assert(rest.skip(1) =~= input@.skip(i + 1));
            }
            i = i + 1;
        }
    }
    assert(input@.skip(n as int) =~= Seq::<u8>::empty());
    assert(out@ =~= out@ + spec_percent_decode(input@.skip(n as int)));
    out
}

// ---------------------------------------------------------------------------
// Line splitting
// ---------------------------------------------------------------------------

/// Index of the first line feed in `s`, or `s.len()` if there is none.
pub open spec fn spec_first_nl(s: Seq<u8>) -> int
    decreases s.len(),
{
    if s.len() == 0 {
        0
    } else if s[0] == 10 {
        0
    } else {
        1 + spec_first_nl(s.skip(1))
    }
}

/// The byte sequence with one trailing carriage return removed.
pub open spec fn spec_strip_cr(s: Seq<u8>) -> Seq<u8> {
    if s.len() > 0 && s.last() == 13 {
        s.drop_last()
    } else {
        s
    }
}

/// The lines of `s`: segments split at line feeds, each with one carriage
/// return before the line feed removed.  A final segment without a line
/// feed is kept as it stands; a trailing line feed yields no empty line.
pub open spec fn spec_lines(s: Seq<u8>) -> Seq<Seq<u8>>
    decreases s.len(),
{
    if s.len() == 0 {
        Seq::empty()
    } else {
        let k = spec_first_nl(s);
        if 0 <= k < s.len() {
            seq![spec_strip_cr(s.subrange(0, k))] + spec_lines(s.skip(k + 1))
        } else {
            seq![s]
        }
    }
}

proof fn lemma_first_nl_at(s: Seq<u8>, k: int)
    requires
        0 <= k <= s.len(),
        forall|j: int| 0 <= j < k ==> s[j] != 10,
        k == s.len() || s[k] == 10,
    ensures
        spec_first_nl(s) == k,
    decreases k,
{
    if k == 0 {
    } else {
        lemma_first_nl_at(s.skip(1), k - 1);
    }
}

/// Splits input bytes into lines as `spec_lines` describes.
fn split_lines(s: &[u8]) -> (r: Vec<Vec<u8>>)
    ensures
        r.deep_view() == spec_lines(s@),
{
    let n = s.len();
    let mut out: Vec<Vec<u8>> = Vec::new();
    let mut i: usize = 0;
    proof {
        assert(s@.skip(0) == s@);
        assert(out.deep_view() + spec_lines(s@) =~= spec_lines(s@));
    }
    while i < n
        invariant
            0 <= i <= n,
            n == s@.len(),
            spec_lines(s@) == out.deep_view() + spec_lines(s@.skip(i as int)),
        decreases n - i,
    {
        let ghost prev = out.deep_view();
        let ghost rest = s@.skip(i as int);
        let mut k: usize = i;
        while k < n && s[k] != 10
            invariant
                i <= k <= n,
                n == s@.len(),
                forall|j: int| i <= j < k ==> s@[j] != 10,
            decreases n - k,
        {
            k = k + 1;
        }
        proof {
            assert(forall|j: int| 0 <= j < k - i ==> rest[j] == s@[i + j] && s@[i + j] != 10);
            if k < n {
                assert(rest[(k - i) as int] == s@[k as int]);
            }
            lemma_first_nl_at(rest, k - i);
        }
        if k < n {
            let line = if k > i && s[k - 1] == 13 {
                slice_subrange(s, i, k - 1)
            } else {
                slice_subrange(s, i, k)
            };
            proof {
                assert(rest.subrange(0, k - i) =~= s@.subrange(i as int, k as int));
                if k > i && s@[k - 1] == 13 {
                    assert(rest.subrange(0, k - i).drop_last() =~= s@.subrange(
                        i as int,
                        k - 1,
                    ));
                }
                assert(line@ == spec_strip_cr(rest.subrange(0, k - i)));
            }
            out.push(slice_to_vec(line));
            proof {
                assert(rest.skip(k - i + 1) =~= s@.skip(k + 1));
                assert(out.deep_view() =~~= prev + seq![line@]);
                assert(prev + seq![line@] + spec_lines(s@.skip(k + 1)) =~= prev + (seq![
                    line@,
                ] + spec_lines(s@.skip(k + 1))));
            }
            i = k + 1;
        } else {
            out.push(slice_to_vec(slice_subrange(s, i, n)));
            proof {
                assert(rest =~= s@.subrange(i as int, n as int));
                assert(out.deep_view() =~~= prev + seq![rest]);
                assert(spec_lines(rest) == seq![rest]);
                assert(s@.skip(n as int) =~= Seq::<u8>::empty());
                assert(prev + seq![rest] + spec_lines(s@.skip(n as int)) =~= prev + seq![rest]);
            }
            i = n;
        }
    }
    proof {
        assert(s@.skip(n as int) =~= Seq::<u8>::empty());
        assert(out.deep_view() + spec_lines(s@.skip(n as int)) =~= out.deep_view());
    }
    out
}

// ---------------------------------------------------------------------------
// Text conversion
// ---------------------------------------------------------------------------

/// The text that lossy UTF-8 decoding yields for a byte sequence.
pub uninterp spec fn lossy_text(bytes: Seq<u8>) -> Seq<char>;

/// Relies on `String::from_utf8_lossy`: the text is a function of the bytes
/// alone, and all-ASCII input decodes to the characters with the same codes.
#[verifier::external_body]
fn bytes_to_text(bytes: &[u8]) -> (r: String)
    ensures
        r@ == lossy_text(bytes@),
        (forall|i: int| 0 <= i < bytes@.len() ==> bytes@[i] < 128) ==> (r@.len() == bytes@.len()
            && (forall|i: int| 0 <= i < bytes@.len() ==> r@[i] as int == bytes@[i] as int)),
{
    String::from_utf8_lossy(bytes).into_owned()
}

// ---------------------------------------------------------------------------
// Fields
// ---------------------------------------------------------------------------

/// The bytes of the name field label, `Name:`.
pub open spec fn name_label() -> Seq<u8> {
    seq![78u8, 97u8, 109u8, 101u8, 58u8]
}

/// The bytes of the location field label, `URL:`.
pub open spec fn url_label() -> Seq<u8> {
    seq![85u8, 82u8, 76u8, 58u8]
}

/// The bytes of the placeholder token, `(null)`.
pub open spec fn null_token() -> Seq<u8> {
    seq![40u8, 110u8, 117u8, 108u8, 108u8, 41u8]
}

/// The bytes of the location scheme prefix, `file://`.
pub open spec fn file_prefix() -> Seq<u8> {
    seq![102u8, 105u8, 108u8, 101u8, 58u8, 47u8, 47u8]
}

/// The bytes of the host segment `localhost/`.
pub open spec fn localhost_prefix() -> Seq<u8> {
    seq![108u8, 111u8, 99u8, 97u8, 108u8, 104u8, 111u8, 115u8, 116u8, 47u8]
}

/// The label used when a record names no usable label of its own.
pub open spec fn fallback_name() -> Seq<char> {
    "未命名"@
}

fn name_label_vec() -> (r: Vec<u8>)
    ensures
        r@ == name_label(),
{
    let mut v: Vec<u8> = Vec::new();
    v.push(78);
    v.push(97);
    v.push(109);
    v.push(101);
    v.push(58);
    proof {
        assert(v@ =~= name_label());
    }
    v
}

fn url_label_vec() -> (r: Vec<u8>)
    ensures
        r@ == url_label(),
{
    let mut v: Vec<u8> = Vec::new();
    v.push(85);
    v.push(82);
    v.push(76);
    v.push(58);
    proof {
        assert(v@ =~= url_label());
    }
    v
}

fn null_token_vec() -> (r: Vec<u8>)
    ensures
        r@ == null_token(),
{
    let mut v: Vec<u8> = Vec::new();
    v.push(40);
    v.push(110);
    v.push(117);
    v.push(108);
    v.push(108);
    v.push(41);
    proof {
        assert(v@ =~= null_token());
    }
    v
}

fn file_prefix_vec() -> (r: Vec<u8>)
    ensures
        r@ == file_prefix(),
{
    let mut v: Vec<u8> = Vec::new();
    v.push(102);
    v.push(105);
    v.push(108);
    v.push(101);
    v.push(58);
    v.push(47);
    v.push(47);
    proof {
        assert(v@ =~= file_prefix());
    }
    v
}

fn localhost_prefix_vec() -> (r: Vec<u8>)
    ensures
        r@ == localhost_prefix(),
{
    let mut v: Vec<u8> = Vec::new();
    v.push(108);
    v.push(111);
    v.push(99);
    v.push(97);
    v.push(108);
    v.push(104);
    v.push(111);
    v.push(115);
    v.push(116);
    v.push(47);
    proof {
        assert(v@ =~= localhost_prefix());
    }
    v
}

/// Whether a line is a record boundary: trimmed, it starts with `#` and
/// ends with `:`.
pub open spec fn spec_is_boundary(l: Seq<u8>) -> bool {
    let t = spec_trim(l);
    t.len() > 0 && t[0] == 35 && t[t.len() - 1] == 58
}

pub fn is_item_start(line: &[u8]) -> (r: bool)
    ensures
        r == spec_is_boundary(line@),
{
    let t = trim_bytes(line);
    t.len() > 0 && t[0] == 35 && t[t.len() - 1] == 58
}

/// The trimmed value of a labelled field, if the line carries that label.
pub open spec fn spec_field_value(l: Seq<u8>, label: Seq<u8>) -> Option<Seq<u8>> {
    if spec_has_prefix(l, label) {
        Some(spec_trim(l.skip(label.len() as int)))
    } else {
        None
    }
}

pub fn parse_field(line: &[u8], label: &[u8]) -> (r: Option<Vec<u8>>)
    ensures
        r.deep_view() == spec_field_value(line@, label@),
{
    if has_prefix(line, label) {
        let rest = slice_subrange(line, label.len(), line.len());
        assert(rest@ == line@.skip(label@.len() as int));
        let v = slice_to_vec(trim_bytes(rest));
        proof {
            assert(v.deep_view() =~= v@);
        }
        Some(v)
    } else {
        None
    }
}

/// The display name a raw name value yields: empty or placeholder values
/// map to the fallback label, anything else is decoded as it stands.
pub open spec fn spec_clean_name(v: Seq<u8>) -> Seq<char> {
    let t = spec_trim(v);
    if t.len() == 0 || t == null_token() {
        fallback_name()
    } else {
        lossy_text(t)
    }
}

pub fn clean_name(value: &[u8]) -> (r: String)
    ensures
        r@ == spec_clean_name(value@),
{
    let t = trim_bytes(value);
    let null_tok = null_token_vec();
    if t.len() == 0 || bytes_eq(t, null_tok.as_slice()) {
        "未命名".to_owned()
    } else {
        bytes_to_text(t)
    }
}

/// The byte sequence with one leading copy of `p` removed, if present.
pub open spec fn spec_strip_prefix(s: Seq<u8>, p: Seq<u8>) -> Seq<u8> {
    if spec_has_prefix(s, p) {
        s.skip(p.len() as int)
    } else {
        s
    }
}

fn strip_prefix_bytes<'a>(s: &'a [u8], p: &[u8]) -> (r: &'a [u8])
    ensures
        r@ == spec_strip_prefix(s@, p@),
{
    if has_prefix(s, p) {
        slice_subrange(s, p.len(), s.len())
    } else {
        s
    }
}

/// The filesystem location a raw location value yields: empty or placeholder
/// values yield none; otherwise one `file://` scheme prefix and one
/// `localhost/` segment are stripped and the remainder is percent-decoded.
pub open spec fn spec_parse_url(v: Seq<u8>) -> Option<Seq<char>> {
    let t = spec_trim(v);
    if t.len() == 0 || t == null_token() {
        None
    } else {
        let p = spec_strip_prefix(spec_strip_prefix(t, file_prefix()), localhost_prefix());
        Some(lossy_text(spec_percent_decode(p)))
    }
}

pub fn parse_url(value: &[u8]) -> (r: Option<String>)
    ensures
        r.deep_view() == spec_parse_url(value@),
        spec_trim(value@).len() == 0 || spec_trim(value@) == null_token() ==> r is None,
{
    let t = trim_bytes(value);
    let null_tok = null_token_vec();
    if t.len() == 0 || bytes_eq(t, null_tok.as_slice()) {
        return None;
    }
    let file_pref = file_prefix_vec();
    let localhost_pref = localhost_prefix_vec();
    let p = strip_prefix_bytes(strip_prefix_bytes(t, file_pref.as_slice()), localhost_pref.as_slice());
    let decoded = percent_decode(p);
    Some(bytes_to_text(decoded.as_slice()))
}

// ---------------------------------------------------------------------------
// Entries
// ---------------------------------------------------------------------------

/// One parsed launch item: a display name and an optional filesystem
/// location.
#[derive(Debug, Clone, PartialEq, Eq)]
pub struct LoginItem {
    pub name: String,
    pub path: Option<String>,
}

/// The mathematical value of a `LoginItem`.
pub struct ItemView {
    pub name: Seq<char>,
    pub path: Option<Seq<char>>,
}

impl View for LoginItem {
    type V = ItemView;

    open spec fn view(&self) -> ItemView {
        ItemView {
            name: self.name@,
            path: match self.path {
                Some(p) => Some(p@),
                None => None,
            },
        }
    }
}

/// The record being accumulated while scanning one record's lines.
pub struct ItemState {
    pub name: Option<String>,
    pub path: Option<String>,
}

/// The mathematical value of an `ItemState`.
pub struct AccView {
    pub name: Option<Seq<char>>,
    pub path: Option<Seq<char>>,
}

impl View for ItemState {
    type V = AccView;

    open spec fn view(&self) -> AccView {
        AccView {
            name: match self.name {
                Some(n) => Some(n@),
                None => None,
            },
            path: match self.path {
                Some(p) => Some(p@),
                None => None,
            },
        }
    }
}

/// The accumulator that has seen no field yet.
pub open spec fn empty_acc() -> AccView {
    AccView { name: None, path: None }
}

/// The entry an accumulator flushes to: none if no field was observed,
/// otherwise an entry whose missing name falls back to the fixed label.
pub open spec fn spec_flush(acc: AccView) -> Option<ItemView> {
    if acc.name is None && acc.path is None {
        None
    } else {
        Some(
            ItemView {
                name: match acc.name {
                    Some(n) => n,
                    None => fallback_name(),
                },
                path: acc.path,
            },
        )
    }
}

/// The view of an optional entry.
pub open spec fn opt_item_view(o: Option<LoginItem>) -> Option<ItemView> {
    match o {
        Some(it) => Some(it@),
        None => None,
    }
}

impl ItemState {
    /// A fresh accumulator.
    pub fn new() -> (r: ItemState)
        ensures
            r@ == empty_acc(),
    {
        ItemState { name: None, path: None }
    }

    /// Flushes the accumulator: yields an entry if any field was observed,
    /// and leaves the accumulator empty either way.
    pub fn finish(&mut self) -> (r: Option<LoginItem>)
        ensures
            opt_item_view(r) == spec_flush(old(self)@),
            final(self)@ == empty_acc(),
    {
        if self.name.is_none() && self.path.is_none() {
            return None;
        }
        let name = match self.name.take() {
            Some(n) => n,
            None => "未命名".to_owned(),
        };
        let path = self.path.take();
        Some(LoginItem { name, path })
    }
}

// ---------------------------------------------------------------------------
// The parser
// ---------------------------------------------------------------------------

/// The accumulator after one non-boundary line: a name field overwrites the
/// name, a location field overwrites the location (possibly with none).
pub open spec fn spec_acc_step(acc: AccView, l: Seq<u8>) -> AccView {
    AccView {
        name: match spec_field_value(l, name_label()) {
            Some(v) => Some(spec_clean_name(v)),
            None => acc.name,
        },
        path: match spec_field_value(l, url_label()) {
            Some(v) => spec_parse_url(v),
            None => acc.path,
        },
    }
}

/// The sequence of one optional entry.
pub open spec fn opt_seq(o: Option<ItemView>) -> Seq<ItemView> {
    match o {
        Some(x) => seq![x],
        None => Seq::empty(),
    }
}

/// The entries produced by scanning `ls` with accumulator `acc`: a boundary
/// line flushes the accumulator, any other line feeds it, and the end of
/// input flushes whatever remains.
pub open spec fn spec_parse_lines(ls: Seq<Seq<u8>>, acc: AccView) -> Seq<ItemView>
    decreases ls.len(),
{
    if ls.len() == 0 {
        opt_seq(spec_flush(acc))
    } else {
        let l = spec_trim_start(ls[0]);
        if spec_is_boundary(l) {
            opt_seq(spec_flush(acc)) + spec_parse_lines(ls.skip(1), empty_acc())
        } else {
            spec_parse_lines(ls.skip(1), spec_acc_step(acc, l))
        }
    }
}

/// The entries the whole dump text yields.
pub open spec fn spec_parse(s: Seq<u8>) -> Seq<ItemView> {
    spec_parse_lines(spec_lines(s), empty_acc())
}

/// Parses the dump text into its ordered entries.
pub fn parse_login_items(input: &str) -> (r: Vec<LoginItem>)
    ensures
        r@.map_values(|it: LoginItem| it@) == spec_parse(input.spec_bytes()),
        r@.len() == spec_count_records(spec_lines(input.spec_bytes()), empty_acc()),
{
    let bytes = input.as_bytes();
    let lines = split_lines(bytes);
    let ghost lsv = lines.deep_view();
    let nl = lines.len();
    let mut items: Vec<LoginItem> = Vec::new();
    let mut state = ItemState::new();
    let mut idx: usize = 0;
    proof {
        assert(lsv.skip(0) == lsv);
        assert(items@.map_values(|it: LoginItem| it@) + spec_parse_lines(lsv, empty_acc())
            =~= spec_parse_lines(lsv, empty_acc()));
    }
    while idx < nl
        invariant
            0 <= idx <= nl,
            nl == lines@.len(),
            lsv == lines.deep_view(),
            spec_parse(bytes@) == items@.map_values(|it: LoginItem| it@) + spec_parse_lines(
                lsv.skip(idx as int),
                state@,
            ),
        decreases nl - idx,
    {
        let ghost prev_items = items@.map_values(|it: LoginItem| it@);
        let ghost acc0 = state@;
        let ghost rest = lsv.skip(idx as int);
        proof {
            assert(rest[0] == lsv[idx as int]);
            assert(lsv[idx as int] =~= lines@[idx as int]@);
            assert(rest.skip(1) =~= lsv.skip(idx + 1));
        }
        let line = trim_start_bytes(lines[idx].as_slice());
        assert(line@ == spec_trim_start(rest[0]));
        if is_item_start(line) {
            if let Some(item) = state.finish() {
                items.push(item);
            }
            state = ItemState::new();
            proof {
                assert(items@.map_values(|it: LoginItem| it@) =~= prev_items + opt_seq(
                    spec_flush(acc0),
                ));
                assert(spec_parse_lines(rest, acc0) == opt_seq(spec_flush(acc0))
                    + spec_parse_lines(rest.skip(1), empty_acc()));
                assert(prev_items + (opt_seq(spec_flush(acc0)) + spec_parse_lines(
                    rest.skip(1),
                    empty_acc(),
                )) =~= (prev_items + opt_seq(spec_flush(acc0))) + spec_parse_lines(
                    rest.skip(1),
                    empty_acc(),
                ));
            }
        } else {
            let nv = parse_field(line, name_label_vec().as_slice());
            if let Some(v) = nv {
                proof {
                    assert(v.deep_view() =~= v@);
                }
                state.name = Some(clean_name(v.as_slice()));
            }
            let uv = parse_field(line, url_label_vec().as_slice());
            if let Some(v) = uv {
                proof {
                    assert(v.deep_view() =~= v@);
                }
                state.path = parse_url(v.as_slice());
            }
            proof {
                assert(state@ == spec_acc_step(acc0, line@));
                assert(spec_parse_lines(rest, acc0) == spec_parse_lines(
                    rest.skip(1),
                    spec_acc_step(acc0, line@),
                ));
            }
        }
        idx = idx + 1;
    }
    proof {
        assert(lsv.skip(nl as int) =~= Seq::<Seq<u8>>::empty());
    }
    if let Some(item) = state.finish() {
        items.push(item);
    }
    proof {
        assert(items@.map_values(|it: LoginItem| it@) =~= spec_parse(bytes@));
        lemma_entry_count(spec_lines(bytes@), empty_acc());
        assert(items@.map_values(|it: LoginItem| it@).len() == items@.len());
    }
    items
}

// ---------------------------------------------------------------------------
// Laws
// ---------------------------------------------------------------------------

/// Bytes that hold no `%` decode to themselves.
pub proof fn lemma_decode_plain(s: Seq<u8>)
    requires
        forall|i: int| 0 <= i < s.len() ==> s[i] != 37,
    ensures
        spec_percent_decode(s) == s,
    decreases s.len(),
{
    if s.len() == 0 {
        assert(spec_percent_decode(s) =~= s);
    } else {
        lemma_decode_plain(s.skip(1));
        assert(seq![s[0]] + s.skip(1) =~= s);
    }
}

/// The ASCII digit (upper case above nine) denoting hexadecimal value `n`.
pub open spec fn spec_hex_digit(n: u8) -> u8 {
    if n < 10 {
        (48 + n) as u8
    } else {
        (55 + n) as u8
    }
}

/// The percent-encoding of `s` that escapes the bytes `esc` selects, plus
/// `%` itself, as `%XX`, and writes every other byte literally.  Any path
/// written with only well-formed escapes has this shape for some choice of
/// `esc`.
pub open spec fn spec_percent_encode(s: Seq<u8>, esc: spec_fn(u8) -> bool) -> Seq<u8>
    decreases s.len(),
{
    if s.len() == 0 {
        Seq::empty()
    } else {
        let head = if esc(s[0]) || s[0] == 37 {
            seq![37u8, spec_hex_digit(s[0] / 16), spec_hex_digit(s[0] % 16)]
        } else {
            seq![s[0]]
        };
        head + spec_percent_encode(s.skip(1), esc)
    }
}

/// Decoding undoes escaping: a path written with only well-formed `%XX`
/// escapes, whichever bytes were escaped, decodes to exactly the byte
/// sequence the escapes denote.
pub proof fn lemma_percent_round_trip(s: Seq<u8>, esc: spec_fn(u8) -> bool)
    ensures
        spec_percent_decode(spec_percent_encode(s, esc)) == s,
    decreases s.len(),
{
    if s.len() == 0 {
        assert(spec_percent_decode(spec_percent_encode(s, esc)) =~= s);
    } else {
        let b = s[0];
        let e = spec_percent_encode(s, esc);
        lemma_percent_round_trip(s.skip(1), esc);
        if esc(b) || b == 37 {
            let hi = b / 16;
            let lo = b % 16;
            assert(hi < 16 && lo < 16);
            assert(spec_hex_value(spec_hex_digit(hi)) == Some(hi));
            assert(spec_hex_value(spec_hex_digit(lo)) == Some(lo));
            assert(e[0] == 37 && e[1] == spec_hex_digit(hi) && e[2] == spec_hex_digit(lo));
            assert(e.skip(3) =~= spec_percent_encode(s.skip(1), esc));
            assert(hi * 16 + lo == b) by {
                assert(b == 16 * (b / 16) + b % 16) by (nonlinear_arith);
            }
            assert(seq![(hi * 16 + lo) as u8] + s.skip(1) =~= s);
        } else {
            assert(e[0] == b && b != 37);
            assert(e.skip(1) =~= spec_percent_encode(s.skip(1), esc));
            assert(seq![b] + s.skip(1) =~= s);
        }
    }
}

/// The number of records flushed while scanning `ls` from accumulator
/// `acc`: one for each boundary line, and one for the end of the input,
/// that an accumulator holding at least one observed field runs into.
pub open spec fn spec_count_records(ls: Seq<Seq<u8>>, acc: AccView) -> nat
    decreases ls.len(),
{
    if ls.len() == 0 {
        if acc.name is Some || acc.path is Some {
            1nat
        } else {
            0nat
        }
    } else {
        let l = spec_trim_start(ls[0]);
        if spec_is_boundary(l) {
            (if acc.name is Some || acc.path is Some {
                1nat
            } else {
                0nat
            }) + spec_count_records(ls.skip(1), empty_acc())
        } else {
            spec_count_records(ls.skip(1), spec_acc_step(acc, l))
        }
    }
}

/// The parser produces exactly one entry per flushed record: as many
/// entries as there are boundaries, or ends of input, that at least one
/// observed field precedes.
pub proof fn lemma_entry_count(ls: Seq<Seq<u8>>, acc: AccView)
    ensures
        spec_parse_lines(ls, acc).len() == spec_count_records(ls, acc),
    decreases ls.len(),
{
    if ls.len() == 0 {
    } else {
        let l = spec_trim_start(ls[0]);
        if spec_is_boundary(l) {
            lemma_entry_count(ls.skip(1), empty_acc());
        } else {
            lemma_entry_count(ls.skip(1), spec_acc_step(acc, l));
        }
    }
}

} // verus!
