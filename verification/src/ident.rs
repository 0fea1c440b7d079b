//! The composite-identifier grammar.
//!
//! A device id that denotes one zone of a multi-zone host has the shape
//! `<host id>-<zone index>`: a host id of five hexadecimal groups of lengths
//! 8, 4, 4, 4 and 12 with an optional hyphen between neighbouring groups,
//! then a literal hyphen, then one or more decimal digits.  The grammar is
//! positional and is read left to right; since a hyphen is never a
//! hexadecimal character, the parse is deterministic.

use vstd::prelude::*;

verus! {

/// Chars that may appear in a hexadecimal group of a host identifier.
pub open spec fn spec_is_hex_char(c: char) -> bool {
    ('0' <= c && c <= '9') || ('a' <= c && c <= 'f') || ('A' <= c && c <= 'F')
}

/// Decimal digits, as they appear in a zone index suffix.
pub open spec fn spec_is_digit(c: char) -> bool {
    '0' <= c && c <= '9'
}

/// Numeric value of one decimal digit.
pub open spec fn digit_val(c: char) -> nat {
    (c as nat - '0' as nat) as nat
}

/// Value of a string of decimal digits, most significant first.
pub open spec fn digits_val(s: Seq<char>) -> nat
    decreases s.len(),
{
    if s.len() == 0 {
        0
    } else {
        digits_val(s.drop_last()) * 10 + digit_val(s.last())
    }
}

/// `n` hexadecimal chars of `s` starting at `i`.
pub open spec fn hex_group_at(s: Seq<char>, i: int, n: int) -> bool {
    &&& 0 <= i
    &&& i + n <= s.len()
    &&& forall|j: int| i <= j < i + n ==> spec_is_hex_char(#[trigger] s[j])
}

/// Position just past an optional hyphen at `i`.
pub open spec fn skip_hyphen(s: Seq<char>, i: int) -> int {
    if 0 <= i < s.len() && s[i] == '-' {
        i + 1
    } else {
        i
    }
}

/// End position of the host-id prefix of `s`, when `s` starts with the five
/// hexadecimal groups; `None` otherwise.  Read left to right: each group is
/// of fixed length, and a hyphen between groups is consumed when present.
pub open spec fn host_prefix_end(s: Seq<char>) -> Option<int> {
    if !hex_group_at(s, 0, 8) {
        None
    } else {
        let p1 = skip_hyphen(s, 8);
        if !hex_group_at(s, p1, 4) {
            None
        } else {
            let p2 = skip_hyphen(s, p1 + 4);
            if !hex_group_at(s, p2, 4) {
                None
            } else {
                let p3 = skip_hyphen(s, p2 + 4);
                if !hex_group_at(s, p3, 4) {
                    None
                } else {
                    let p4 = skip_hyphen(s, p3 + 4);
                    if !hex_group_at(s, p4, 12) {
                        None
                    } else {
                        Some(p4 + 12)
                    }
                }
            }
        }
    }
}

/// The host part and the digit suffix of a composite zone id, or `None` when
/// `s` does not have the composite shape.
pub open spec fn zone_id_parts(s: Seq<char>) -> Option<(Seq<char>, Seq<char>)> {
    match host_prefix_end(s) {
        None => None,
        Some(e) => {
            if e + 1 < s.len() && s[e] == '-' && (forall|j: int|
                e + 1 <= j < s.len() ==> spec_is_digit(#[trigger] s[j])) {
                Some((s.subrange(0, e), s.subrange(e + 1, s.len() as int)))
            } else {
                None
            }
        },
    }
}

/// A composite zone id: the shape matches and the zone index fits the
/// machine integer that carries it.  An index beyond that range is not
/// treated as a zone id.
pub open spec fn spec_is_zone_id(s: Seq<char>) -> bool {
    match zone_id_parts(s) {
        None => false,
        Some((host, digits)) => digits_val(digits) <= u64::MAX,
    }
}

/// What `classify` decides about a device id: either it is an ordinary id,
/// or it is a composite id naming one zone of a multi-zone host.
pub enum Classified {
    Plain(String),
    Composite { host: String, index: u64 },
}

fn is_hex_char(c: char) -> (r: bool)
    ensures
        r == spec_is_hex_char(c),
{
    ('0' <= c && c <= '9') || ('a' <= c && c <= 'f') || ('A' <= c && c <= 'F')
}

fn is_digit(c: char) -> (r: bool)
    ensures
        r == spec_is_digit(c),
{
    '0' <= c && c <= '9'
}

/// The characters of `s`, in order.
fn chars_of(s: &str) -> (r: Vec<char>)
    ensures
        r@ == s@,
{
    let n = s.unicode_len();
    let mut r: Vec<char> = Vec::new();
    let mut i: usize = 0;
    while i < n
        invariant
            n == s@.len(),
            i <= n,
            r@ == s@.subrange(0, i as int),
        decreases n - i,
    {
        r.push(s.get_char(i));
        i = i + 1;
        proof {
            assert(r@ =~= s@.subrange(0, i as int));
        }
    }
    proof {
        assert(r@ =~= s@);
    }
    r
}

fn scan_hex_group(cs: &Vec<char>, i: usize, n: usize) -> (r: bool)
    ensures
        r == hex_group_at(cs@, i as int, n as int),
{
    if cs.len() < n || i > cs.len() - n {
        return false;
    }
    let mut j: usize = i;
    while j < i + n
        invariant
            i + n <= cs.len(),
            i <= j <= i + n,
            forall|k: int| i <= k < j ==> spec_is_hex_char(#[trigger] cs@[k]),
        decreases i + n - j,
    {
        if !is_hex_char(cs[j]) {
            return false;
        }
        j = j + 1;
    }
    true
}

fn skip_hyphen_at(cs: &Vec<char>, i: usize) -> (r: usize)
    requires
        i <= cs.len(),
    ensures
        r == skip_hyphen(cs@, i as int),
        i <= r <= i + 1,
        r <= cs.len(),
{
    if i < cs.len() && cs[i] == '-' {
        i + 1
    } else {
        i
    }
}

fn find_host_prefix_end(cs: &Vec<char>) -> (r: Option<usize>)
    ensures
        match r {
            Some(e) => host_prefix_end(cs@) == Some(e as int) && e <= cs.len(),
            None => host_prefix_end(cs@) is None,
        },
{
    if !scan_hex_group(cs, 0, 8) {
        return None;
    }
    let p1 = skip_hyphen_at(cs, 8);
    if !scan_hex_group(cs, p1, 4) {
        return None;
    }
    let p2 = skip_hyphen_at(cs, p1 + 4);
    if !scan_hex_group(cs, p2, 4) {
        return None;
    }
    let p3 = skip_hyphen_at(cs, p2 + 4);
    if !scan_hex_group(cs, p3, 4) {
        return None;
    }
    let p4 = skip_hyphen_at(cs, p3 + 4);
    if !scan_hex_group(cs, p4, 12) {
        return None;
    }
    Some(p4 + 12)
}

/// Parses the decimal digits of `cs` from `start` to the end; `None` when
/// their value does not fit in a `u64`.
fn parse_digits(cs: &Vec<char>, start: usize) -> (r: Option<u64>)
    requires
        start < cs@.len(),
        forall|j: int| start <= j < cs@.len() ==> spec_is_digit(#[trigger] cs@[j]),
    ensures
        ({
            let digits = cs@.subrange(start as int, cs@.len() as int);
            match r {
                Some(v) => v == digits_val(digits),
                None => digits_val(digits) > u64::MAX,
            }
        }),
{
    let ghost digits = cs@.subrange(start as int, cs@.len() as int);
    let mut acc: u64 = 0;
    let mut i: usize = start;
    while i < cs.len()
        invariant
            start <= i <= cs@.len(),
            digits == cs@.subrange(start as int, cs@.len() as int),
            forall|j: int| start <= j < cs@.len() ==> spec_is_digit(#[trigger] cs@[j]),
            acc == digits_val(cs@.subrange(start as int, i as int)),
        decreases cs@.len() - i,
    {
        let c = cs[i];
        let d: u64 = (c as u32 - '0' as u32) as u64;
        assert(d == digit_val(cs@[i as int]) && d <= 9);
        if acc > (u64::MAX - d) / 10 {
            proof {
                lemma_digits_overflow(cs@, start as int, i as int, d);
            }
            return None;
        }
        let ghost pre = cs@.subrange(start as int, i as int);
        acc = acc * 10 + d;
        i = i + 1;
        proof {
            lemma_digits_val_shift(cs@, start as int, i as int - 1);
        }
    }
    proof {
        assert(cs@.subrange(start as int, i as int) =~= digits);
    }
    Some(acc)
}

/// One more digit multiplies the value by ten and adds the digit.
proof fn lemma_digits_val_shift(s: Seq<char>, start: int, i: int)
    requires
        0 <= start <= i < s.len(),
    ensures
        digits_val(s.subrange(start, i + 1)) == digits_val(s.subrange(start, i)) * 10 + digit_val(
            s[i],
        ),
{
    let pre = s.subrange(start, i + 1);
    assert(pre.drop_last() =~= s.subrange(start, i));
    assert(pre.last() == s[i]);
}

/// When a digit prefix already exceeds what one more step can keep in
/// range, the whole digit string exceeds the range too.
proof fn lemma_digits_overflow(s: Seq<char>, start: int, i: int, d: u64)
    requires
        0 <= start <= i < s.len(),
        d == digit_val(s[i]),
        digits_val(s.subrange(start, i)) > (u64::MAX - d) / 10,
    ensures
        digits_val(s.subrange(start, s.len() as int)) > u64::MAX,
    decreases s.len() - i,
{
    lemma_digits_val_shift(s, start, i);
    let v = digits_val(s.subrange(start, i));
    assert(v * 10 + d > u64::MAX) by (nonlinear_arith)
        requires
            v > (u64::MAX - d) / 10,
            d <= u64::MAX,
    ;
    lemma_digits_val_lower_bound(s, start, i + 1, s.len() as int);
}

/// The value of a digit string is at least the value of any of its prefixes.
proof fn lemma_digits_val_lower_bound(s: Seq<char>, start: int, i: int, end: int)
    requires
        0 <= start <= i <= end <= s.len(),
    ensures
        digits_val(s.subrange(start, end)) >= digits_val(s.subrange(start, i)),
    decreases end - i,
{
    if i < end {
        lemma_digits_val_shift(s, start, end - 1);
        let v = digits_val(s.subrange(start, end - 1));
        assert(v * 10 + digit_val(s[end - 1]) >= v) by (nonlinear_arith);
        lemma_digits_val_lower_bound(s, start, i, end - 1);
    } else {
        assert(s.subrange(start, end) =~= s.subrange(start, i));
    }
}

/// Splits a device id into host id and zone index when it has the composite
/// zone shape; any other id comes back unchanged as a plain id.  Total and
/// free of effects: not matching the shape is an ordinary outcome.
pub fn classify(id: &String) -> (r: Classified)
    ensures
        match r {
            Classified::Plain(p) => p@ == id@ && !spec_is_zone_id(id@),
            Classified::Composite { host, index } => {
                &&& spec_is_zone_id(id@)
                &&& zone_id_parts(id@) == Some(
                    (host@, id@.subrange(host@.len() as int + 1, id@.len() as int)),
                )
                &&& index == digits_val(id@.subrange(host@.len() as int + 1, id@.len() as int))
            },
        },
{
    let cs = chars_of(id.as_str());
    let e = match find_host_prefix_end(&cs) {
        None => {
            return Classified::Plain(id.clone());
        },
        Some(e) => e,
    };
    if !(e + 1 < cs.len() && cs[e] == '-') {
        return Classified::Plain(id.clone());
    }
    let mut j: usize = e + 1;
    while j < cs.len()
        invariant
            cs@ == id@,
            host_prefix_end(id@) == Some(e as int),
            e + 1 < cs@.len(),
            cs@[e as int] == '-',
            e + 1 <= j <= cs@.len(),
            forall|k: int| e + 1 <= k < j ==> spec_is_digit(#[trigger] cs@[k]),
        decreases cs@.len() - j,
    {
        if !is_digit(cs[j]) {
            return Classified::Plain(id.clone());
        }
        j = j + 1;
    }
    match parse_digits(&cs, e + 1) {
        None => Classified::Plain(id.clone()),
        Some(v) => {
            let host_str = id.as_str().substring_char(0, e);
            let host = host_str.to_owned();
            proof {
                assert(host@ =~= id@.subrange(0, e as int));
            }
            Classified::Composite { host, index: v }
        },
    }
}

/// The decimal digit char for a value below ten.
pub open spec fn digit_char(n: nat) -> char {
    if n == 0 {
        '0'
    } else if n == 1 {
        '1'
    } else if n == 2 {
        '2'
    } else if n == 3 {
        '3'
    } else if n == 4 {
        '4'
    } else if n == 5 {
        '5'
    } else if n == 6 {
        '6'
    } else if n == 7 {
        '7'
    } else if n == 8 {
        '8'
    } else {
        '9'
    }
}

/// Decimal rendering of a natural number, most significant digit first,
/// without leading zeros (zero itself is the single digit `0`).
pub open spec fn dec_digits(n: nat) -> Seq<char>
    decreases n,
{
    if n < 10 {
        seq![digit_char(n)]
    } else {
        dec_digits(n / 10) + seq![digit_char(n % 10)]
    }
}

/// Decimal rendering of an integer: a leading minus sign when negative.
pub open spec fn dec_int(i: int) -> Seq<char> {
    if i < 0 {
        seq!['-'] + dec_digits((-i) as nat)
    } else {
        dec_digits(i as nat)
    }
}

fn digit_str(d: u64) -> (r: &'static str)
    requires
        d < 10,
    ensures
        r@ == seq![digit_char(d as nat)],
{
    proof {
        reveal_strlit("0");
        reveal_strlit("1");
        reveal_strlit("2");
        reveal_strlit("3");
        reveal_strlit("4");
        reveal_strlit("5");
        reveal_strlit("6");
        reveal_strlit("7");
        reveal_strlit("8");
        reveal_strlit("9");
    }
    let r = match d {
        0 => "0",
        1 => "1",
        2 => "2",
        3 => "3",
        4 => "4",
        5 => "5",
        6 => "6",
        7 => "7",
        8 => "8",
        _ => "9",
    };
    proof {
        assert(r@ =~= seq![digit_char(d as nat)]);
    }
    r
}

fn push_dec_digits(n: u64, out: &mut String)
    ensures
        final(out)@ == old(out)@ + dec_digits(n as nat),
    decreases n,
{
    if n >= 10 {
        push_dec_digits(n / 10, out);
    }
    out.append(digit_str(n % 10));
    proof {
        assert(final(out)@ =~= old(out)@ + dec_digits(n as nat));
    }
}

/// Decimal form of an unsigned number.
pub fn u64_to_string(n: u64) -> (r: String)
    ensures
        r@ == dec_digits(n as nat),
{
    let mut s = String::new();
    push_dec_digits(n, &mut s);
    proof {
        assert(s@ =~= dec_digits(n as nat));
    }
    s
}

/// Decimal form of a signed number.
pub fn i64_to_string(v: i64) -> (r: String)
    ensures
        r@ == dec_int(v as int),
{
    if v < 0 {
        let mut s = String::new();
        s.append("-");
        let m: u64 = if v == i64::MIN {
            9223372036854775808u64
        } else {
            (-v) as u64
        };
        push_dec_digits(m, &mut s);
        proof {
            reveal_strlit("-");
            assert(s@ =~= dec_int(v as int));
        }
        s
    } else {
        u64_to_string(v as u64)
    }
}

/// The composite id of one zone of a host: the host id, a hyphen, and the
/// zone's decimal id.
pub open spec fn zone_guid(host: Seq<char>, zone_id: int) -> Seq<char> {
    host + seq!['-'] + dec_int(zone_id)
}

/// Builds the composite id for one zone of a host.
pub fn make_zone_guid(host_guid: &String, zone_id: i64) -> (r: String)
    ensures
        r@ == zone_guid(host_guid@, zone_id as int),
{
    let mut s = host_guid.clone();
    s.append("-");
    let suffix = i64_to_string(zone_id);
    s.append(suffix.as_str());
    proof {
        reveal_strlit("-");
        assert(s@ =~= zone_guid(host_guid@, zone_id as int));
    }
    s
}

/// The canonical host id form: five hexadecimal groups of lengths 8, 4, 4,
/// 4 and 12 with a hyphen between each pair, 36 chars in all.
pub open spec fn canonical_host(h: Seq<char>) -> bool {
    &&& h.len() == 36
    &&& h[8] == '-'
    &&& h[13] == '-'
    &&& h[18] == '-'
    &&& h[23] == '-'
    &&& forall|j: int|
        0 <= j < 36 && j != 8 && j != 13 && j != 18 && j != 23 ==> spec_is_hex_char(#[trigger] h[j])
}

/// Law: a canonical 36-char host id, a hyphen and a non-empty digit string
/// form a composite zone id that splits back into exactly that host id and
/// that digit string.
pub proof fn lemma_canonical_composite(h: Seq<char>, ds: Seq<char>)
    requires
        canonical_host(h),
        ds.len() > 0,
        forall|j: int| 0 <= j < ds.len() ==> spec_is_digit(#[trigger] ds[j]),
    ensures
        zone_id_parts(h + seq!['-'] + ds) == Some((h, ds)),
{
    let s = h + seq!['-'] + ds;
    assert(hex_group_at(s, 0, 8));
    assert(s[8] == '-');
    assert(skip_hyphen(s, 8) == 9);
    assert(hex_group_at(s, 9, 4));
    assert(skip_hyphen(s, 13) == 14);
    assert(hex_group_at(s, 14, 4));
    assert(skip_hyphen(s, 18) == 19);
    assert(hex_group_at(s, 19, 4));
    assert(skip_hyphen(s, 23) == 24);
    assert(hex_group_at(s, 24, 12));
    assert(host_prefix_end(s) == Some(36int));
    assert(s[36] == '-');
    assert(forall|j: int| 37 <= j < s.len() ==> spec_is_digit(#[trigger] s[j]));
    assert(s.subrange(0, 36) =~= h);
    assert(s.subrange(37, s.len() as int) =~= ds);
}

/// Whether the given id has the composite zone shape (with an index in
/// machine range), so that it names a zone of a multi-zone host.
pub fn check_if_zone(guid: &String) -> (r: bool)
    ensures
        r == spec_is_zone_id(guid@),
{
    match classify(guid) {
        Classified::Plain(_) => false,
        Classified::Composite { .. } => true,
    }
}

} // verus!
