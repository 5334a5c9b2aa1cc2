//! A byte-level scanner and emitter for the compact, line-delimited JSON
//! objects that the peer protocol exchanges.
//!
//! The grammar accepted here is defined by the `spec_` functions below: one
//! JSON object per frame, string keys, values that are strings (escape
//! sequences are skipped but kept verbatim), unsigned or signed integers of at
//! most 19 digits, `true`/`false`, `null` (which counts as an absent field),
//! or nested objects and arrays. Unknown fields are ignored; the first
//! occurrence of a key wins. Executable functions mirror the specification
//! functions exactly.
use vstd::prelude::*;
use vstd::string::StringSliceAdditionalSpecFns;

verus! {

/// The largest frame the scanner accepts; protocol frames are far smaller.
pub const MAX_FRAME: usize = 65535;

/// Relates an executable scan result to its specification-level mirror.
pub open spec fn opt_eq(r: Option<usize>, m: Option<int>) -> bool {
    match (r, m) {
        (Some(a), Some(b)) => a as int == b,
        (None, None) => true,
        _ => false,
    }
}

/// JSON insignificant whitespace: space, tab, line feed, carriage return.
pub open spec fn is_ws(b: u8) -> bool {
    b == 32 || b == 9 || b == 10 || b == 13
}

/// First index at or after `i` holding a non-whitespace byte (or the end).
pub open spec fn spec_skip_ws(s: Seq<u8>, i: int) -> int
    decreases s.len() - i,
{
    if 0 <= i && i < s.len() && is_ws(s[i]) {
        spec_skip_ws(s, i + 1)
    } else {
        i
    }
}

pub fn skip_ws(s: &[u8], i: usize) -> (r: usize)
    requires
        i <= s@.len(),
    ensures
        r == spec_skip_ws(s@, i as int),
        i <= r <= s@.len(),
    decreases s@.len() - i,
{
    if i < s.len() {
        let b = s[i];
        if b == 32 || b == 9 || b == 10 || b == 13 {
            skip_ws(s, i + 1)
        } else {
            i
        }
    } else {
        i
    }
}

/// Index just past the closing quote of a string whose opening quote stands
/// at `i - 1`; a backslash skips the following byte.
pub open spec fn spec_scan_string_body(s: Seq<u8>, i: int) -> Option<int>
    decreases s.len() - i,
{
    if i < 0 || i >= s.len() {
        None
    } else if s[i] == 34 {
        Some(i + 1)
    } else if s[i] == 92 {
        if i + 1 < s.len() {
            spec_scan_string_body(s, i + 2)
        } else {
            None
        }
    } else {
        spec_scan_string_body(s, i + 1)
    }
}

pub fn scan_string_body(s: &[u8], i: usize) -> (r: Option<usize>)
    requires
        i <= s@.len(),
    ensures
        opt_eq(r, spec_scan_string_body(s@, i as int)),
        r matches Some(e) ==> i < e <= s@.len(),
    decreases s@.len() - i,
{
    if i >= s.len() {
        None
    } else if s[i] == 34 {
        Some(i + 1)
    } else if s[i] == 92 {
        if i + 1 < s.len() {
            scan_string_body(s, i + 2)
        } else {
            None
        }
    } else {
        scan_string_body(s, i + 1)
    }
}

/// End of a scalar token (number, `true`, `false`, `null`): the first index at
/// or after `i` holding a comma, closing brace or bracket, whitespace, or the
/// end of the input.
pub open spec fn spec_scan_scalar(s: Seq<u8>, i: int) -> int
    decreases s.len() - i,
{
    if 0 <= i && i < s.len() && !is_ws(s[i]) && s[i] != 44 && s[i] != 125 && s[i] != 93 {
        spec_scan_scalar(s, i + 1)
    } else {
        i
    }
}

pub fn scan_scalar(s: &[u8], i: usize) -> (r: usize)
    requires
        i <= s@.len(),
    ensures
        r == spec_scan_scalar(s@, i as int),
        i <= r <= s@.len(),
    decreases s@.len() - i,
{
    if i < s.len() {
        let b = s[i];
        if !(b == 32 || b == 9 || b == 10 || b == 13) && b != 44 && b != 125 && b != 93 {
            scan_scalar(s, i + 1)
        } else {
            i
        }
    } else {
        i
    }
}

/// Index just past one JSON value starting at `i`. `fuel` bounds the nesting
/// the scanner follows; the entry points hand it enough for any input of
/// their length.
pub open spec fn spec_scan_value(s: Seq<u8>, i: int, fuel: nat) -> Option<int>
    decreases fuel,
{
    if fuel == 0 {
        None
    } else if i < 0 || i >= s.len() {
        None
    } else if s[i] == 34 {
        spec_scan_string_body(s, i + 1)
    } else if s[i] == 123 {
        spec_scan_object_items(s, i + 1, (fuel - 1) as nat, true)
    } else if s[i] == 91 {
        spec_scan_array_items(s, i + 1, (fuel - 1) as nat, true)
    } else {
        let j = spec_scan_scalar(s, i);
        if j == i {
            None
        } else {
            Some(j)
        }
    }
}

/// Index just past the `}` that closes an object whose items begin at `i`
/// (just after `{` or after a separating comma).
pub open spec fn spec_scan_object_items(s: Seq<u8>, i: int, fuel: nat, first: bool) -> Option<int>
    decreases fuel,
{
    if fuel == 0 {
        None
    } else {
        let k = spec_skip_ws(s, i);
        if k >= s.len() {
            None
        } else if first && s[k] == 125 {
            Some(k + 1)
        } else if s[k] != 34 {
            None
        } else {
            match spec_scan_string_body(s, k + 1) {
                None => None,
                Some(ke) => {
                    let c = spec_skip_ws(s, ke);
                    if c >= s.len() || s[c] != 58 {
                        None
                    } else {
                        let v = spec_skip_ws(s, c + 1);
                        match spec_scan_value(s, v, (fuel - 1) as nat) {
                            None => None,
                            Some(e) => {
                                let t = spec_skip_ws(s, e);
                                if t >= s.len() {
                                    None
                                } else if s[t] == 125 {
                                    Some(t + 1)
                                } else if s[t] == 44 {
                                    spec_scan_object_items(s, t + 1, (fuel - 1) as nat, false)
                                } else {
                                    None
                                }
                            },
                        }
                    }
                },
            }
        }
    }
}

/// Index just past the `]` that closes an array whose items begin at `i`.
pub open spec fn spec_scan_array_items(s: Seq<u8>, i: int, fuel: nat, first: bool) -> Option<int>
    decreases fuel,
{
    if fuel == 0 {
        None
    } else {
        let k = spec_skip_ws(s, i);
        if k >= s.len() {
            None
        } else if first && s[k] == 93 {
            Some(k + 1)
        } else {
            match spec_scan_value(s, k, (fuel - 1) as nat) {
                None => None,
                Some(e) => {
                    let t = spec_skip_ws(s, e);
                    if t >= s.len() {
                        None
                    } else if s[t] == 93 {
                        Some(t + 1)
                    } else if s[t] == 44 {
                        spec_scan_array_items(s, t + 1, (fuel - 1) as nat, false)
                    } else {
                        None
                    }
                },
            }
        }
    }
}

pub fn scan_value(s: &[u8], i: usize, fuel: usize) -> (r: Option<usize>)
    requires
        i <= s@.len(),
    ensures
        opt_eq(r, spec_scan_value(s@, i as int, fuel as nat)),
        r matches Some(e) ==> i < e <= s@.len(),
    decreases fuel,
{
    if fuel == 0 {
        None
    } else if i >= s.len() {
        None
    } else if s[i] == 34 {
        scan_string_body(s, i + 1)
    } else if s[i] == 123 {
        scan_object_items(s, i + 1, fuel - 1, true)
    } else if s[i] == 91 {
        scan_array_items(s, i + 1, fuel - 1, true)
    } else {
        let j = scan_scalar(s, i);
        if j == i {
            None
        } else {
            Some(j)
        }
    }
}

pub fn scan_object_items(s: &[u8], i: usize, fuel: usize, first: bool) -> (r: Option<usize>)
    requires
        i <= s@.len(),
    ensures
        opt_eq(r, spec_scan_object_items(s@, i as int, fuel as nat, first)),
        r matches Some(e) ==> i < e <= s@.len(),
    decreases fuel,
{
    if fuel == 0 {
        None
    } else {
        let k = skip_ws(s, i);
        if k >= s.len() {
            None
        } else if first && s[k] == 125 {
            Some(k + 1)
        } else if s[k] != 34 {
            None
        } else {
            match scan_string_body(s, k + 1) {
                None => None,
                Some(ke) => {
                    let c = skip_ws(s, ke);
                    if c >= s.len() || s[c] != 58 {
                        None
                    } else {
                        let v = skip_ws(s, c + 1);
                        match scan_value(s, v, fuel - 1) {
                            None => None,
                            Some(e) => {
                                let t = skip_ws(s, e);
                                if t >= s.len() {
                                    None
                                } else if s[t] == 125 {
                                    Some(t + 1)
                                } else if s[t] == 44 {
                                    scan_object_items(s, t + 1, fuel - 1, false)
                                } else {
                                    None
                                }
                            },
                        }
                    }
                },
            }
        }
    }
}

pub fn scan_array_items(s: &[u8], i: usize, fuel: usize, first: bool) -> (r: Option<usize>)
    requires
        i <= s@.len(),
    ensures
        opt_eq(r, spec_scan_array_items(s@, i as int, fuel as nat, first)),
        r matches Some(e) ==> i < e <= s@.len(),
    decreases fuel,
{
    if fuel == 0 {
        None
    } else {
        let k = skip_ws(s, i);
        if k >= s.len() {
            None
        } else if first && s[k] == 93 {
            Some(k + 1)
        } else {
            match scan_value(s, k, fuel - 1) {
                None => None,
                Some(e) => {
                    let t = skip_ws(s, e);
                    if t >= s.len() {
                        None
                    } else if s[t] == 93 {
                        Some(t + 1)
                    } else if s[t] == 44 {
                        scan_array_items(s, t + 1, fuel - 1, false)
                    } else {
                        None
                    }
                },
            }
        }
    }
}

/// Start of the value of the first top-level field named `name`, scanning the
/// items of an object from `i`; `None` when the field is absent or the items
/// are not well-formed.
pub open spec fn spec_find_field(s: Seq<u8>, i: int, name: Seq<u8>, fuel: nat) -> Option<int>
    decreases fuel,
{
    if fuel == 0 {
        None
    } else {
        let k = spec_skip_ws(s, i);
        if k >= s.len() || s[k] != 34 {
            None
        } else {
            match spec_scan_string_body(s, k + 1) {
                None => None,
                Some(ke) => {
                    let c = spec_skip_ws(s, ke);
                    if c >= s.len() || s[c] != 58 {
                        None
                    } else {
                        let v = spec_skip_ws(s, c + 1);
                        if s.subrange(k + 1, ke - 1) == name {
                            Some(v)
                        } else {
                            match spec_scan_value(s, v, (fuel - 1) as nat) {
                                None => None,
                                Some(e) => {
                                    let t = spec_skip_ws(s, e);
                                    if t < s.len() && s[t] == 44 {
                                        spec_find_field(s, t + 1, name, (fuel - 1) as nat)
                                    } else {
                                        None
                                    }
                                },
                            }
                        }
                    }
                },
            }
        }
    }
}

/// Whether `s[a..b]` equals `name`.
pub fn bytes_eq(s: &[u8], a: usize, b: usize, name: &[u8]) -> (r: bool)
    requires
        a <= b <= s@.len(),
    ensures
        r == (s@.subrange(a as int, b as int) == name@),
{
    if b - a != name.len() {
        proof {
            assert(s@.subrange(a as int, b as int).len() == b - a);
        }
        return false;
    }
    let mut j: usize = 0;
    while j < name.len()
        invariant
            a <= b <= s@.len(),
            b - a == name@.len(),
            j <= name@.len(),
            forall|k: int| 0 <= k < j ==> s@[a + k] == name@[k],
        decreases name@.len() - j,
    {
        if s[a + j] != name[j] {
            proof {
                assert(s@.subrange(a as int, b as int)[j as int] == s@[a + j]);
            }
            return false;
        }
        j += 1;
    }
    proof {
        assert(s@.subrange(a as int, b as int) =~= name@);
    }
    true
}

pub fn find_field(s: &[u8], i: usize, name: &[u8], fuel: usize) -> (r: Option<usize>)
    requires
        i <= s@.len(),
    ensures
        opt_eq(r, spec_find_field(s@, i as int, name@, fuel as nat)),
        r matches Some(v) ==> v <= s@.len(),
    decreases fuel,
{
    if fuel == 0 {
        None
    } else {
        let k = skip_ws(s, i);
        if k >= s.len() {
            None
        } else if s[k] != 34 {
            None
        } else {
            match scan_string_body(s, k + 1) {
                None => None,
                Some(ke) => {
                    let c = skip_ws(s, ke);
                    if c >= s.len() || s[c] != 58 {
                        None
                    } else {
                        let v = skip_ws(s, c + 1);
                        if bytes_eq(s, k + 1, ke - 1, name) {
                            Some(v)
                        } else {
                            match scan_value(s, v, fuel - 1) {
                                None => None,
                                Some(e) => {
                                    let t = skip_ws(s, e);
                                    if t < s.len() && s[t] == 44 {
                                        find_field(s, t + 1, name, fuel - 1)
                                    } else {
                                        None
                                    }
                                },
                            }
                        }
                    }
                },
            }
        }
    }
}

/// Fuel that suffices for any value the scanner can consume out of `s`: every
/// two fuel steps consume at least one byte.
pub open spec fn spec_fuel(s: Seq<u8>) -> nat {
    (2 * s.len() + 2) as nat
}

/// Index of the first item of the frame's top-level object: just past its
/// opening brace.
pub open spec fn spec_items_start(s: Seq<u8>) -> Option<int> {
    let k = spec_skip_ws(s, 0);
    if k < s.len() && s[k] == 123 {
        Some(k + 1)
    } else {
        None
    }
}

/// Whether the frame is one well-formed JSON object with nothing but
/// whitespace after it.
pub open spec fn spec_is_object(s: Seq<u8>) -> bool {
    match spec_items_start(s) {
        None => false,
        Some(i) => match spec_scan_object_items(s, i, spec_fuel(s), true) {
            None => false,
            Some(e) => spec_skip_ws(s, e) == s.len(),
        },
    }
}

pub fn is_object(s: &[u8]) -> (r: bool)
    requires
        s@.len() <= MAX_FRAME,
    ensures
        r == spec_is_object(s@),
{
    let k = skip_ws(s, 0);
    if k < s.len() && s[k] == 123 {
        match scan_object_items(s, k + 1, 2 * s.len() + 2, true) {
            None => false,
            Some(e) => skip_ws(s, e) == s.len(),
        }
    } else {
        false
    }
}

/// Start of the value of the top-level field named `name`, or `None` when the
/// frame is not an object or has no such field.
pub open spec fn spec_field_start(s: Seq<u8>, name: Seq<u8>) -> Option<int> {
    match spec_items_start(s) {
        None => None,
        Some(i) => spec_find_field(s, i, name, spec_fuel(s)),
    }
}

pub fn field_start(s: &[u8], name: &[u8]) -> (r: Option<usize>)
    requires
        s@.len() <= MAX_FRAME,
    ensures
        opt_eq(r, spec_field_start(s@, name@)),
        r matches Some(v) ==> v <= s@.len(),
{
    let k = skip_ws(s, 0);
    if k < s.len() && s[k] == 123 {
        find_field(s, k + 1, name, 2 * s.len() + 2)
    } else {
        None
    }
}

/// The bytes `s[a..b]` as a fresh vector.
pub fn copy_range(s: &[u8], a: usize, b: usize) -> (r: Vec<u8>)
    requires
        a <= b <= s@.len(),
    ensures
        r@ == s@.subrange(a as int, b as int),
{
    let mut out: Vec<u8> = Vec::new();
    let mut j: usize = a;
    while j < b
        invariant
            a <= j <= b <= s@.len(),
            out@ == s@.subrange(a as int, j as int),
        decreases b - j,
    {
        out.push(s[j]);
        proof {
            assert(s@.subrange(a as int, j + 1 as int) =~= s@.subrange(a as int, j as int).push(
                s@[j as int],
            ));
        }
        j += 1;
    }
    out
}

pub fn items_start(s: &[u8]) -> (r: Option<usize>)
    requires
        s@.len() <= MAX_FRAME,
    ensures
        opt_eq(r, spec_items_start(s@)),
        r matches Some(i) ==> i <= s@.len(),
{
    let k = skip_ws(s, 0);
    if k < s.len() && s[k] == 123 {
        Some(k + 1)
    } else {
        None
    }
}

pub fn field_start_at(s: &[u8], i: usize, name: &[u8]) -> (r: Option<usize>)
    requires
        i <= s@.len(),
        s@.len() <= MAX_FRAME,
    ensures
        opt_eq(r, spec_find_field(s@, i as int, name@, spec_fuel(s@))),
        r matches Some(v) ==> v <= s@.len(),
{
    find_field(s, i, name, 2 * s.len() + 2)
}

/// One field of an object, as the scanner found it: absent, present but not
/// of the asked-for shape, or a value.
pub enum Field<T> {
    Missing,
    Bad,
    Val(T),
}

/// Relates an executable byte-field result to its specification mirror.
pub open spec fn field_bytes_eq(r: Field<Vec<u8>>, m: Field<Seq<u8>>) -> bool {
    match (r, m) {
        (Field::Missing, Field::Missing) => true,
        (Field::Bad, Field::Bad) => true,
        (Field::Val(a), Field::Val(b)) => a@ == b,
        _ => false,
    }
}

/// Relates an executable unsigned-field result to its specification mirror.
pub open spec fn field_u64_eq(r: Field<u64>, m: Field<int>) -> bool {
    match (r, m) {
        (Field::Missing, Field::Missing) => true,
        (Field::Bad, Field::Bad) => true,
        (Field::Val(a), Field::Val(b)) => a as int == b,
        _ => false,
    }
}

/// A string field's raw content bytes (escape sequences kept verbatim).
/// An explicit `null` counts as absent, as for every field shape below.
pub open spec fn spec_str_at(s: Seq<u8>, i: int, name: Seq<u8>) -> Field<Seq<u8>> {
    match spec_find_field(s, i, name, spec_fuel(s)) {
        None => Field::Missing,
        Some(v) => if s.subrange(v, spec_scan_scalar(s, v)) == "null".spec_bytes() {
            Field::Missing
        } else if v < s.len() && s[v] == 34 {
            match spec_scan_string_body(s, v + 1) {
                None => Field::Bad,
                Some(e) => Field::Val(s.subrange(v + 1, e - 1)),
            }
        } else {
            Field::Bad
        },
    }
}

pub fn str_at(s: &[u8], i: usize, name: &[u8]) -> (r: Field<Vec<u8>>)
    requires
        i <= s@.len(),
        s@.len() <= MAX_FRAME,
    ensures
        field_bytes_eq(r, spec_str_at(s@, i as int, name@)),
{
    match field_start_at(s, i, name) {
        None => Field::Missing,
        Some(v) => {
            if bytes_eq(s, v, scan_scalar(s, v), "null".as_bytes()) {
                Field::Missing
            } else if v < s.len() && s[v] == 34 {
                match scan_string_body(s, v + 1) {
                    None => Field::Bad,
                    Some(e) => Field::Val(copy_range(s, v + 1, e - 1)),
                }
            } else {
                Field::Bad
            }
        },
    }
}

/// Whether every byte of `s[a..b]` is a decimal digit.
pub open spec fn spec_all_digits(s: Seq<u8>, a: int, b: int) -> bool {
    forall|j: int| a <= j < b ==> 48 <= #[trigger] s[j] <= 57
}

/// The value of the digit run `s[a..b]`.
pub open spec fn spec_digits_val(s: Seq<u8>, a: int, b: int) -> int
    decreases b - a,
{
    if a >= b {
        0
    } else {
        spec_digits_val(s, a, b - 1) * 10 + (s[b - 1] - 48)
    }
}

pub open spec fn pow10(n: nat) -> int
    decreases n,
{
    if n == 0 {
        1
    } else {
        10 * pow10((n - 1) as nat)
    }
}

pub proof fn lemma_digits_val_bound(s: Seq<u8>, a: int, b: int)
    requires
        0 <= a <= b <= s.len(),
        spec_all_digits(s, a, b),
    ensures
        0 <= spec_digits_val(s, a, b) < pow10((b - a) as nat),
    decreases b - a,
{
    if a < b {
        lemma_digits_val_bound(s, a, b - 1);
    }
}

/// Parses the digit run `s[a..b]`; `None` when a byte is not a digit.
/// Runs of more than 19 digits are not accepted: every accepted value is
/// below `10^19` and so fits in a `u64`.
pub fn parse_digits(s: &[u8], a: usize, b: usize) -> (r: Option<u64>)
    requires
        a <= b <= s@.len(),
        b - a <= 19,
    ensures
        r matches Some(v) ==> spec_all_digits(s@, a as int, b as int) && v as int
            == spec_digits_val(s@, a as int, b as int),
        r is None ==> !spec_all_digits(s@, a as int, b as int),
{
    let mut acc: u64 = 0;
    let mut j: usize = a;
    proof {
        reveal_with_fuel(pow10, 20);
    }
    while j < b
        invariant
            a <= j <= b <= s@.len(),
            b - a <= 19,
            spec_all_digits(s@, a as int, j as int),
            acc as int == spec_digits_val(s@, a as int, j as int),
            pow10(19) == 10000000000000000000,
        decreases b - j,
    {
        let d = s[j];
        if d < 48 || d > 57 {
            proof {
                assert(!spec_all_digits(s@, a as int, b as int));
            }
            return None;
        }
        proof {
            lemma_digits_val_bound(s@, a as int, j + 1 as int);
            lemma_pow10_le((j + 1 - a) as nat, 19);
        }
        acc = acc * 10 + ((d - 48) as u64);
        j += 1;
    }
    Some(acc)
}

pub proof fn lemma_pow10_le(m: nat, n: nat)
    requires
        m <= n,
    ensures
        pow10(m) <= pow10(n),
    decreases n,
{
    if m < n {
        lemma_pow10_le(m, (n - 1) as nat);
        lemma_digits_pos((n - 1) as nat);
    }
}

pub proof fn lemma_digits_pos(n: nat)
    ensures
        pow10(n) >= 1,
    decreases n,
{
    if n > 0 {
        lemma_digits_pos((n - 1) as nat);
    }
}

/// An unsigned integer field: a scalar token of at most 19 digits.
pub open spec fn spec_uint_at(s: Seq<u8>, i: int, name: Seq<u8>) -> Field<int> {
    match spec_find_field(s, i, name, spec_fuel(s)) {
        None => Field::Missing,
        Some(v) => {
            let e = spec_scan_scalar(s, v);
            if s.subrange(v, e) == "null".spec_bytes() {
                Field::Missing
            } else if v < e && e - v <= 19 && spec_all_digits(s, v, e) {
                Field::Val(spec_digits_val(s, v, e))
            } else {
                Field::Bad
            }
        },
    }
}

pub fn uint_at(s: &[u8], i: usize, name: &[u8]) -> (r: Field<u64>)
    requires
        i <= s@.len(),
        s@.len() <= MAX_FRAME,
    ensures
        field_u64_eq(r, spec_uint_at(s@, i as int, name@)),
{
    match field_start_at(s, i, name) {
        None => Field::Missing,
        Some(v) => {
            let e = scan_scalar(s, v);
            if bytes_eq(s, v, e, "null".as_bytes()) {
                Field::Missing
            } else if v < e && e - v <= 19 {
                match parse_digits(s, v, e) {
                    Some(val) => Field::Val(val),
                    None => Field::Bad,
                }
            } else {
                Field::Bad
            }
        },
    }
}

/// A signed 32-bit integer field: an optional minus sign and at most 10
/// digits, within the range of an `i32`.
pub open spec fn spec_i32_at(s: Seq<u8>, i: int, name: Seq<u8>) -> Field<i32> {
    match spec_find_field(s, i, name, spec_fuel(s)) {
        None => Field::Missing,
        Some(v) => if s.subrange(v, spec_scan_scalar(s, v)) == "null".spec_bytes() {
            Field::Missing
        } else {
            let neg = v < s.len() && s[v] == 45;
            let a = if neg {
                v + 1
            } else {
                v
            };
            let e = spec_scan_scalar(s, a);
            if a < e && e - a <= 10 && spec_all_digits(s, a, e) {
                let m = spec_digits_val(s, a, e);
                if neg && m <= 2147483648 {
                    Field::Val((-m) as i32)
                } else if !neg && m <= 2147483647 {
                    Field::Val(m as i32)
                } else {
                    Field::Bad
                }
            } else {
                Field::Bad
            }
        },
    }
}

pub fn i32_at(s: &[u8], i: usize, name: &[u8]) -> (r: Field<i32>)
    requires
        i <= s@.len(),
        s@.len() <= MAX_FRAME,
    ensures
        r == spec_i32_at(s@, i as int, name@),
{
    match field_start_at(s, i, name) {
        None => Field::Missing,
        Some(v) => {
            if bytes_eq(s, v, scan_scalar(s, v), "null".as_bytes()) {
                return Field::Missing;
            }
            let neg = v < s.len() && s[v] == 45;
            let a = if neg {
                v + 1
            } else {
                v
            };
            let e = scan_scalar(s, a);
            if a < e && e - a <= 10 {
                match parse_digits(s, a, e) {
                    Some(m) => {
                        if neg && m <= 2147483648 {
                            Field::Val((-(m as i64)) as i32)
                        } else if !neg && m <= 2147483647 {
                            Field::Val(m as i32)
                        } else {
                            Field::Bad
                        }
                    },
                    None => Field::Bad,
                }
            } else {
                Field::Bad
            }
        },
    }
}

/// A boolean field: the scalar token `true` or `false`.
pub open spec fn spec_bool_at(s: Seq<u8>, i: int, name: Seq<u8>) -> Field<bool> {
    match spec_find_field(s, i, name, spec_fuel(s)) {
        None => Field::Missing,
        Some(v) => {
            let e = spec_scan_scalar(s, v);
            if s.subrange(v, e) == "true".spec_bytes() {
                Field::Val(true)
            } else if s.subrange(v, e) == "false".spec_bytes() {
                Field::Val(false)
            } else if s.subrange(v, e) == "null".spec_bytes() {
                Field::Missing
            } else {
                Field::Bad
            }
        },
    }
}

pub fn bool_at(s: &[u8], i: usize, name: &[u8]) -> (r: Field<bool>)
    requires
        i <= s@.len(),
        s@.len() <= MAX_FRAME,
    ensures
        r == spec_bool_at(s@, i as int, name@),
{
    match field_start_at(s, i, name) {
        None => Field::Missing,
        Some(v) => {
            let e = scan_scalar(s, v);
            if bytes_eq(s, v, e, "true".as_bytes()) {
                Field::Val(true)
            } else if bytes_eq(s, v, e, "false".as_bytes()) {
                Field::Val(false)
            } else if bytes_eq(s, v, e, "null".as_bytes()) {
                Field::Missing
            } else {
                Field::Bad
            }
        },
    }
}

/// A numeric field kept as its raw token text, for number shapes the library
/// does not model (fractional coordinates and the like).
pub open spec fn spec_raw_at(s: Seq<u8>, i: int, name: Seq<u8>) -> Field<Seq<u8>> {
    match spec_find_field(s, i, name, spec_fuel(s)) {
        None => Field::Missing,
        Some(v) => {
            let e = spec_scan_scalar(s, v);
            if s.subrange(v, e) == "null".spec_bytes() {
                Field::Missing
            } else if v < e {
                Field::Val(s.subrange(v, e))
            } else {
                Field::Bad
            }
        },
    }
}

pub fn raw_at(s: &[u8], i: usize, name: &[u8]) -> (r: Field<Vec<u8>>)
    requires
        i <= s@.len(),
        s@.len() <= MAX_FRAME,
    ensures
        field_bytes_eq(r, spec_raw_at(s@, i as int, name@)),
{
    match field_start_at(s, i, name) {
        None => Field::Missing,
        Some(v) => {
            let e = scan_scalar(s, v);
            if bytes_eq(s, v, e, "null".as_bytes()) {
                Field::Missing
            } else if v < e {
                Field::Val(copy_range(s, v, e))
            } else {
                Field::Bad
            }
        },
    }
}

/// A nested object field: the index of the nested object's first item.
pub open spec fn spec_obj_at(s: Seq<u8>, i: int, name: Seq<u8>) -> Field<int> {
    match spec_find_field(s, i, name, spec_fuel(s)) {
        None => Field::Missing,
        Some(v) => if s.subrange(v, spec_scan_scalar(s, v)) == "null".spec_bytes() {
            Field::Missing
        } else if v < s.len() && s[v] == 123 {
            Field::Val(v + 1)
        } else {
            Field::Bad
        },
    }
}

pub fn obj_at(s: &[u8], i: usize, name: &[u8]) -> (r: Field<usize>)
    requires
        i <= s@.len(),
        s@.len() <= MAX_FRAME,
    ensures
        match (r, spec_obj_at(s@, i as int, name@)) {
            (Field::Missing, Field::Missing) => true,
            (Field::Bad, Field::Bad) => true,
            (Field::Val(a), Field::Val(b)) => a as int == b && a <= s@.len(),
            _ => false,
        },
{
    match field_start_at(s, i, name) {
        None => Field::Missing,
        Some(v) => {
            if bytes_eq(s, v, scan_scalar(s, v), "null".as_bytes()) {
                Field::Missing
            } else if v < s.len() && s[v] == 123 {
                Field::Val(v + 1)
            } else {
                Field::Bad
            }
        },
    }
}

/// The view of an optional byte vector.
pub open spec fn spec_opt_view(x: Option<Vec<u8>>) -> Option<Seq<u8>> {
    match x {
        Some(v) => Some(v@),
        None => None,
    }
}

/// Relates an executable optional-bytes result to its specification mirror.
pub open spec fn opt_bytes_eq(r: Option<Option<Vec<u8>>>, m: Option<Option<Seq<u8>>>) -> bool {
    match (r, m) {
        (Some(Some(a)), Some(Some(b))) => a@ == b,
        (Some(None), Some(None)) => true,
        (None, None) => true,
        _ => false,
    }
}

/// An optional string field of at most `max` content bytes: absent is `None`,
/// any other shape or a longer string fails the decode.
pub open spec fn spec_opt_str_at(s: Seq<u8>, i: int, name: Seq<u8>, max: int) -> Option<
    Option<Seq<u8>>,
> {
    match spec_str_at(s, i, name) {
        Field::Missing => Some(None),
        Field::Bad => None,
        Field::Val(b) => if b.len() <= max {
            Some(Some(b))
        } else {
            None
        },
    }
}

pub fn opt_str_at(s: &[u8], i: usize, name: &[u8], max: usize) -> (r: Option<Option<Vec<u8>>>)
    requires
        i <= s@.len(),
        s@.len() <= MAX_FRAME,
    ensures
        opt_bytes_eq(r, spec_opt_str_at(s@, i as int, name@, max as int)),
{
    match str_at(s, i, name) {
        Field::Missing => Some(None),
        Field::Bad => None,
        Field::Val(b) => if b.len() <= max {
            Some(Some(b))
        } else {
            None
        },
    }
}

/// A required string field of at most `max` content bytes.
pub open spec fn spec_req_str_at(s: Seq<u8>, i: int, name: Seq<u8>, max: int) -> Option<Seq<u8>> {
    match spec_str_at(s, i, name) {
        Field::Val(b) => if b.len() <= max {
            Some(b)
        } else {
            None
        },
        _ => None,
    }
}

pub fn req_str_at(s: &[u8], i: usize, name: &[u8], max: usize) -> (r: Option<Vec<u8>>)
    requires
        i <= s@.len(),
        s@.len() <= MAX_FRAME,
    ensures
        match (r, spec_req_str_at(s@, i as int, name@, max as int)) {
            (Some(a), Some(b)) => a@ == b,
            (None, None) => true,
            _ => false,
        },
{
    match str_at(s, i, name) {
        Field::Val(b) => if b.len() <= max {
            Some(b)
        } else {
            None
        },
        _ => None,
    }
}

/// An optional unsigned field that must fit a `u32`.
pub open spec fn spec_opt_u32_at(s: Seq<u8>, i: int, name: Seq<u8>) -> Option<Option<u32>> {
    match spec_uint_at(s, i, name) {
        Field::Missing => Some(None),
        Field::Bad => None,
        Field::Val(v) => if v <= u32::MAX {
            Some(Some(v as u32))
        } else {
            None
        },
    }
}

pub fn opt_u32_at(s: &[u8], i: usize, name: &[u8]) -> (r: Option<Option<u32>>)
    requires
        i <= s@.len(),
        s@.len() <= MAX_FRAME,
    ensures
        r == spec_opt_u32_at(s@, i as int, name@),
{
    match uint_at(s, i, name) {
        Field::Missing => Some(None),
        Field::Bad => None,
        Field::Val(v) => if v <= 0xffff_ffff {
            Some(Some(v as u32))
        } else {
            None
        },
    }
}

/// An optional unsigned field that must fit a `u64`.
pub open spec fn spec_opt_u64_at(s: Seq<u8>, i: int, name: Seq<u8>) -> Option<Option<u64>> {
    match spec_uint_at(s, i, name) {
        Field::Missing => Some(None),
        Field::Bad => None,
        Field::Val(v) => Some(Some(v as u64)),
    }
}

pub fn opt_u64_at(s: &[u8], i: usize, name: &[u8]) -> (r: Option<Option<u64>>)
    requires
        i <= s@.len(),
        s@.len() <= MAX_FRAME,
    ensures
        r == spec_opt_u64_at(s@, i as int, name@),
{
    match uint_at(s, i, name) {
        Field::Missing => Some(None),
        Field::Bad => None,
        Field::Val(v) => Some(Some(v)),
    }
}

/// An optional unsigned field that must fit a `u8`.
pub open spec fn spec_opt_u8_at(s: Seq<u8>, i: int, name: Seq<u8>) -> Option<Option<u8>> {
    match spec_uint_at(s, i, name) {
        Field::Missing => Some(None),
        Field::Bad => None,
        Field::Val(v) => if v <= u8::MAX {
            Some(Some(v as u8))
        } else {
            None
        },
    }
}

pub fn opt_u8_at(s: &[u8], i: usize, name: &[u8]) -> (r: Option<Option<u8>>)
    requires
        i <= s@.len(),
        s@.len() <= MAX_FRAME,
    ensures
        r == spec_opt_u8_at(s@, i as int, name@),
{
    match uint_at(s, i, name) {
        Field::Missing => Some(None),
        Field::Bad => None,
        Field::Val(v) => if v <= 255 {
            Some(Some(v as u8))
        } else {
            None
        },
    }
}

/// A required unsigned field that must fit a `usize`.
pub open spec fn spec_req_usize_at(s: Seq<u8>, i: int, name: Seq<u8>) -> Option<usize> {
    match spec_uint_at(s, i, name) {
        Field::Val(v) => if v <= usize::MAX {
            Some(v as usize)
        } else {
            None
        },
        _ => None,
    }
}

pub fn req_usize_at(s: &[u8], i: usize, name: &[u8]) -> (r: Option<usize>)
    requires
        i <= s@.len(),
        s@.len() <= MAX_FRAME,
    ensures
        r == spec_req_usize_at(s@, i as int, name@),
{
    match uint_at(s, i, name) {
        Field::Val(v) => if v <= usize::MAX as u64 {
            Some(v as usize)
        } else {
            None
        },
        _ => None,
    }
}

/// An optional signed 32-bit field.
pub open spec fn spec_opt_i32_at(s: Seq<u8>, i: int, name: Seq<u8>) -> Option<Option<i32>> {
    match spec_i32_at(s, i, name) {
        Field::Missing => Some(None),
        Field::Bad => None,
        Field::Val(v) => Some(Some(v)),
    }
}

pub fn opt_i32_at(s: &[u8], i: usize, name: &[u8]) -> (r: Option<Option<i32>>)
    requires
        i <= s@.len(),
        s@.len() <= MAX_FRAME,
    ensures
        r == spec_opt_i32_at(s@, i as int, name@),
{
    match i32_at(s, i, name) {
        Field::Missing => Some(None),
        Field::Bad => None,
        Field::Val(v) => Some(Some(v)),
    }
}

/// An optional boolean field.
pub open spec fn spec_opt_bool_at(s: Seq<u8>, i: int, name: Seq<u8>) -> Option<Option<bool>> {
    match spec_bool_at(s, i, name) {
        Field::Missing => Some(None),
        Field::Bad => None,
        Field::Val(b) => Some(Some(b)),
    }
}

pub fn opt_bool_at(s: &[u8], i: usize, name: &[u8]) -> (r: Option<Option<bool>>)
    requires
        i <= s@.len(),
        s@.len() <= MAX_FRAME,
    ensures
        r == spec_opt_bool_at(s@, i as int, name@),
{
    match bool_at(s, i, name) {
        Field::Missing => Some(None),
        Field::Bad => None,
        Field::Val(b) => Some(Some(b)),
    }
}

/// A boolean field that defaults to `false` when absent.
pub open spec fn spec_bool_default_at(s: Seq<u8>, i: int, name: Seq<u8>) -> Option<bool> {
    match spec_bool_at(s, i, name) {
        Field::Missing => Some(false),
        Field::Bad => None,
        Field::Val(b) => Some(b),
    }
}

pub fn bool_default_at(s: &[u8], i: usize, name: &[u8]) -> (r: Option<bool>)
    requires
        i <= s@.len(),
        s@.len() <= MAX_FRAME,
    ensures
        r == spec_bool_default_at(s@, i as int, name@),
{
    match bool_at(s, i, name) {
        Field::Missing => Some(false),
        Field::Bad => None,
        Field::Val(b) => Some(b),
    }
}

/// An optional numeric field kept as raw token text.
pub open spec fn spec_opt_raw_at(s: Seq<u8>, i: int, name: Seq<u8>) -> Option<Option<Seq<u8>>> {
    match spec_raw_at(s, i, name) {
        Field::Missing => Some(None),
        Field::Bad => None,
        Field::Val(b) => Some(Some(b)),
    }
}

pub fn opt_raw_at(s: &[u8], i: usize, name: &[u8]) -> (r: Option<Option<Vec<u8>>>)
    requires
        i <= s@.len(),
        s@.len() <= MAX_FRAME,
    ensures
        opt_bytes_eq(r, spec_opt_raw_at(s@, i as int, name@)),
{
    match raw_at(s, i, name) {
        Field::Missing => Some(None),
        Field::Bad => None,
        Field::Val(b) => Some(Some(b)),
    }
}

/// An optional nested object field: the index of the nested items.
pub open spec fn spec_opt_obj_at(s: Seq<u8>, i: int, name: Seq<u8>) -> Option<Option<int>> {
    match spec_obj_at(s, i, name) {
        Field::Missing => Some(None),
        Field::Bad => None,
        Field::Val(v) => Some(Some(v)),
    }
}

pub fn opt_obj_at(s: &[u8], i: usize, name: &[u8]) -> (r: Option<Option<usize>>)
    requires
        i <= s@.len(),
        s@.len() <= MAX_FRAME,
    ensures
        match (r, spec_opt_obj_at(s@, i as int, name@)) {
            (Some(Some(a)), Some(Some(b))) => a as int == b && a <= s@.len(),
            (Some(None), Some(None)) => true,
            (None, None) => true,
            _ => false,
        },
{
    match obj_at(s, i, name) {
        Field::Missing => Some(None),
        Field::Bad => None,
        Field::Val(v) => Some(Some(v)),
    }
}

/// Appends `s` to `out`.
pub fn push_bytes(out: &mut Vec<u8>, s: &[u8])
    ensures
        final(out)@ == old(out)@ + s@,
{
    let mut j: usize = 0;
    while j < s.len()
        invariant
            j <= s@.len(),
            out@ == old(out)@ + s@.subrange(0, j as int),
        decreases s@.len() - j,
    {
        out.push(s[j]);
        proof {
            assert(old(out)@ + s@.subrange(0, j + 1 as int) =~= (old(out)@ + s@.subrange(
                0,
                j as int,
            )).push(s@[j as int]));
        }
        j += 1;
    }
    proof {
        assert(s@.subrange(0, s@.len() as int) =~= s@);
    }
}

/// The hexadecimal digit for `n < 16`, lower case.
pub open spec fn spec_hex_digit(n: u8) -> u8 {
    if n < 10 {
        (48 + n) as u8
    } else {
        (87 + n) as u8
    }
}

/// How one byte of string content is emitted: quotes and backslashes get a
/// backslash, control bytes become a `\u00..` escape, all else is verbatim.
pub open spec fn spec_esc_byte(b: u8) -> Seq<u8> {
    if b == 34 {
        seq![92u8, 34u8]
    } else if b == 92 {
        seq![92u8, 92u8]
    } else if b < 32 {
        seq![92u8, 117u8, 48u8, 48u8, spec_hex_digit(b / 16), spec_hex_digit(b % 16)]
    } else {
        seq![b]
    }
}

/// The escaped form of string content.
pub open spec fn spec_escape(bs: Seq<u8>) -> Seq<u8>
    decreases bs.len(),
{
    if bs.len() == 0 {
        Seq::empty()
    } else {
        spec_escape(bs.drop_last()) + spec_esc_byte(bs.last())
    }
}

/// A JSON string: a quote, the escaped content, a quote.
pub open spec fn spec_json_str(bs: Seq<u8>) -> Seq<u8> {
    seq![34u8] + spec_escape(bs) + seq![34u8]
}

/// Appends the JSON string form of `s` to `out`.
pub fn push_json_str(out: &mut Vec<u8>, s: &str)
    ensures
        final(out)@ == old(out)@ + spec_json_str(s.spec_bytes()),
{
    let bs = s.as_bytes();
    out.push(34);
    let mut j: usize = 0;
    while j < bs.len()
        invariant
            j <= bs@.len(),
            bs@ == s.spec_bytes(),
            out@ == old(out)@ + seq![34u8] + spec_escape(bs@.subrange(0, j as int)),
        decreases bs@.len() - j,
    {
        let b = bs[j];
        if b == 34 {
            out.push(92);
            out.push(34);
        } else if b == 92 {
            out.push(92);
            out.push(92);
        } else if b < 32 {
            out.push(92);
            out.push(117);
            out.push(48);
            out.push(48);
            out.push(if b / 16 < 10 {
                48 + b / 16
            } else {
                87 + b / 16
            });
            out.push(if b % 16 < 10 {
                48 + b % 16
            } else {
                87 + b % 16
            });
        } else {
            out.push(b);
        }
        proof {
            assert(bs@.subrange(0, j + 1 as int).drop_last() =~= bs@.subrange(0, j as int));
            assert(bs@.subrange(0, j + 1 as int).last() == bs@[j as int]);
            assert(out@ =~= old(out)@ + seq![34u8] + spec_escape(bs@.subrange(0, j + 1 as int)));
        }
        j += 1;
    }
    out.push(34);
    proof {
        assert(bs@.subrange(0, bs@.len() as int) =~= bs@);
        assert(out@ =~= old(out)@ + spec_json_str(s.spec_bytes()));
    }
}

/// An optional string-valued field: the given prefix (comma, quoted key and
/// colon) and the JSON string, or nothing when absent.
pub open spec fn spec_opt_str_field(pre: Seq<u8>, v: Option<&str>) -> Seq<u8> {
    match v {
        Some(s) => pre + spec_json_str(s.spec_bytes()),
        None => Seq::empty(),
    }
}

pub fn push_opt_str_field(out: &mut Vec<u8>, pre: &str, v: Option<&str>)
    ensures
        final(out)@ == old(out)@ + spec_opt_str_field(pre.spec_bytes(), v),
{
    match v {
        Some(s) => {
            push_bytes(out, pre.as_bytes());
            push_json_str(out, s);
            proof {
                assert(out@ =~= old(out)@ + spec_opt_str_field(pre.spec_bytes(), v));
            }
        },
        None => {
            proof {
                assert(out@ =~= old(out)@ + spec_opt_str_field(pre.spec_bytes(), v));
            }
        },
    }
}

/// An optional unsigned field: the prefix and the decimal value, or nothing.
pub open spec fn spec_opt_u32_field(pre: Seq<u8>, v: Option<u32>) -> Seq<u8> {
    match v {
        Some(n) => pre + spec_dec_u64(n as u64),
        None => Seq::empty(),
    }
}

pub fn push_opt_u32_field(out: &mut Vec<u8>, pre: &str, v: Option<u32>)
    ensures
        final(out)@ == old(out)@ + spec_opt_u32_field(pre.spec_bytes(), v),
{
    match v {
        Some(n) => {
            push_bytes(out, pre.as_bytes());
            push_dec_u64(out, n as u64);
            proof {
                assert(out@ =~= old(out)@ + spec_opt_u32_field(pre.spec_bytes(), v));
            }
        },
        None => {
            proof {
                assert(out@ =~= old(out)@ + spec_opt_u32_field(pre.spec_bytes(), v));
            }
        },
    }
}

/// An optional boolean field: the prefix and the keyword, or nothing.
pub open spec fn spec_opt_bool_field(pre: Seq<u8>, v: Option<bool>) -> Seq<u8> {
    match v {
        Some(b) => pre + spec_bool_bytes(b),
        None => Seq::empty(),
    }
}

pub fn push_opt_bool_field(out: &mut Vec<u8>, pre: &str, v: Option<bool>)
    ensures
        final(out)@ == old(out)@ + spec_opt_bool_field(pre.spec_bytes(), v),
{
    match v {
        Some(b) => {
            push_bytes(out, pre.as_bytes());
            push_bool(out, b);
            proof {
                assert(out@ =~= old(out)@ + spec_opt_bool_field(pre.spec_bytes(), v));
            }
        },
        None => {
            proof {
                assert(out@ =~= old(out)@ + spec_opt_bool_field(pre.spec_bytes(), v));
            }
        },
    }
}

/// An optional raw field: the prefix and the caller's bytes verbatim — for
/// values that are already JSON number literals — or nothing.
pub open spec fn spec_opt_raw_field(pre: Seq<u8>, v: Option<&str>) -> Seq<u8> {
    match v {
        Some(s) => pre + s.spec_bytes(),
        None => Seq::empty(),
    }
}

pub fn push_opt_raw_field(out: &mut Vec<u8>, pre: &str, v: Option<&str>)
    ensures
        final(out)@ == old(out)@ + spec_opt_raw_field(pre.spec_bytes(), v),
{
    match v {
        Some(s) => {
            push_bytes(out, pre.as_bytes());
            push_bytes(out, s.as_bytes());
            proof {
                assert(out@ =~= old(out)@ + spec_opt_raw_field(pre.spec_bytes(), v));
            }
        },
        None => {
            proof {
                assert(out@ =~= old(out)@ + spec_opt_raw_field(pre.spec_bytes(), v));
            }
        },
    }
}

/// The decimal digits of `n`, most significant first.
pub open spec fn spec_dec_u64(n: u64) -> Seq<u8>
    decreases n,
{
    if n < 10 {
        seq![(48 + n) as u8]
    } else {
        spec_dec_u64((n / 10) as u64) + seq![(48 + n % 10) as u8]
    }
}

/// Appends the decimal form of `n` to `out`.
pub fn push_dec_u64(out: &mut Vec<u8>, n: u64)
    ensures
        final(out)@ == old(out)@ + spec_dec_u64(n),
    decreases n,
{
    if n < 10 {
        out.push(48 + (n as u8));
        proof {
            assert(out@ =~= old(out)@ + spec_dec_u64(n));
        }
    } else {
        push_dec_u64(out, n / 10);
        out.push(48 + ((n % 10) as u8));
        proof {
            assert(out@ =~= old(out)@ + spec_dec_u64(n));
        }
    }
}

/// The decimal digits of `n`, with a leading minus sign when negative.
pub open spec fn spec_dec_i32(n: i32) -> Seq<u8> {
    if n < 0 {
        seq![45u8] + spec_dec_u64((-(n as int)) as u64)
    } else {
        spec_dec_u64(n as u64)
    }
}

/// Appends the decimal form of `n` to `out`.
pub fn push_dec_i32(out: &mut Vec<u8>, n: i32)
    ensures
        final(out)@ == old(out)@ + spec_dec_i32(n),
{
    if n < 0 {
        out.push(45);
        push_dec_u64(out, (-(n as i64)) as u64);
        proof {
            assert(out@ =~= old(out)@ + spec_dec_i32(n));
        }
    } else {
        push_dec_u64(out, n as u64);
    }
}

/// The keyword `true` or `false`.
pub open spec fn spec_bool_bytes(b: bool) -> Seq<u8> {
    if b {
        "true".spec_bytes()
    } else {
        "false".spec_bytes()
    }
}

/// Appends `true` or `false` to `out`.
pub fn push_bool(out: &mut Vec<u8>, b: bool)
    ensures
        final(out)@ == old(out)@ + spec_bool_bytes(b),
{
    if b {
        push_bytes(out, "true".as_bytes());
    } else {
        push_bytes(out, "false".as_bytes());
    }
}

} // verus!
