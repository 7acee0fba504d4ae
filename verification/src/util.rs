//! Constants and small functions that the rest of the library shares.

use crate::location::{url_parsed, Location};
use crate::text::{chars_of, decimal, digit_char, option_view, push_decimal, string_of};
use crate::timestamp::{strptime, strptime_parsed, TimestampError, Tm};
use vstd::prelude::*;
use vstd::string::StringExecFns;
use vstd::utf8::encode_utf8;

verus! {

/// Name and version of the client, sent as the user agent of every request.
pub const USER_AGENT: &'static str = "D'Oh/0.1.1";

/// Byte that a key read returns for Enter.
pub const GETCH_ENTER: u8 = 13;

/// Byte that a key read returns for Escape.
pub const GETCH_ESC: u8 = 27;

/// First byte that a key read returns for a special key.
pub const GETCH_SPECIAL_PREFIX: u8 = 224;

/// Second byte that a key read returns for the up arrow.
pub const GETCH_ARROW_UP: u8 = 72;

/// Second byte that a key read returns for the down arrow.
pub const GETCH_ARROW_DOWN: u8 = 80;

/// Second byte that a key read returns for the left arrow.
pub const GETCH_ARROW_LEFT: u8 = 75;

/// Second byte that a key read returns for the right arrow.
pub const GETCH_ARROW_RIGHT: u8 = 77;

/// Second byte that a key read returns for Delete.
pub const GETCH_DELETE: u8 = 83;

/// Second byte that a key read returns for Home.
pub const GETCH_HOME: u8 = 71;

/// Second byte that a key read returns for End.
pub const GETCH_END: u8 = 79;

/// Second byte that a key read returns for Page Up.
pub const GETCH_PAGE_UP: u8 = 73;

/// Second byte that a key read returns for Page Down.
pub const GETCH_PAGE_DOWN: u8 = 81;

/// Number of spaces that a tab is expanded to.
pub const TAB_WIDTH: usize = 4;

/// `n` spaces.
pub open spec fn spaces(n: nat) -> Seq<char> {
    Seq::new(n, |i: int| ' ')
}

/// The filler that replaces a tab: `TAB_WIDTH` spaces.
pub fn tab_spacing() -> (filler: String)
    ensures
        filler@ == spaces(TAB_WIDTH as nat),
{
    let mut filler = String::new();
    let mut i: usize = 0;
    while i < TAB_WIDTH
        invariant
            i <= TAB_WIDTH,
            filler@ == spaces(i as nat),
        decreases TAB_WIDTH - i,
    {
        filler.push(' ');
        i += 1;
        assert(filler@ =~= spaces(i as nat));
    }
    filler
}

/// The format by which a timestamp is read: with `Z` or with an offset, as
/// its last character says, and with or without a fraction of a second, as
/// its length in bytes says.
pub open spec fn rfc3339_format(from: Seq<char>) -> Seq<char> {
    let utc = from.len() > 0 && from.last() == 'Z';
    let fractional = encode_utf8(from).len() > (if utc { 20int } else { 25int });
    if utc {
        if fractional {
            "%Y-%m-%dT%H:%M:%S.%fZ"@
        } else {
            "%Y-%m-%dT%H:%M:%SZ"@
        }
    } else {
        if fractional {
            "%Y-%m-%dT%H:%M:%S.%f%z"@
        } else {
            "%Y-%m-%dT%H:%M:%S%z"@
        }
    }
}

/// Reads an RFC 3339 timestamp. The day of the week, the day of the year and
/// the daylight saving flag are not worked out: they come back as the `time`
/// crate leaves them.
pub fn parse_rfc3339(from: &str) -> (parsed: Result<Tm, TimestampError>)
    ensures
        parsed matches Ok(tm) ==> strptime_parsed(from@, rfc3339_format(from@)) == Some(tm),
        parsed is Err ==> strptime_parsed(from@, rfc3339_format(from@)) is None,
{
    let chars = chars_of(from);
    let utc = chars.len() > 0 && chars[chars.len() - 1] == 'Z';
    let fractional = from.as_bytes().len() > (if utc { 20 } else { 25 });
    let read = if utc {
        if fractional {
            strptime(from, "%Y-%m-%dT%H:%M:%S.%fZ")
        } else {
            strptime(from, "%Y-%m-%dT%H:%M:%SZ")
        }
    } else {
        if fractional {
            strptime(from, "%Y-%m-%dT%H:%M:%S.%f%z")
        } else {
            strptime(from, "%Y-%m-%dT%H:%M:%S%z")
        }
    };
    match read {
        Ok(tm) => Ok(tm),
        Err(cause) => Err(TimestampError { cause }),
    }
}

/// The `exp`th power of 1024.
pub open spec fn size_unit(exp: nat) -> nat
    decreases exp,
{
    if exp == 0 {
        1
    } else {
        1024 * size_unit((exp - 1) as nat)
    }
}

/// The whole part of the logarithm of `s` to the base 1024, at most 8; zero
/// for a size under 1024.
pub open spec fn size_exponent(s: nat) -> nat
    decreases s,
{
    if s < 1024 {
        0
    } else if size_exponent(s / 1024) >= 7 {
        8
    } else {
        size_exponent(s / 1024) + 1
    }
}

/// `s` in tenths of the unit of exponent `exp`, rounded to the nearest, a
/// half upwards.
pub open spec fn size_tenths(s: nat, exp: nat) -> nat {
    (s * 20 + size_unit(exp)) / (2 * size_unit(exp))
}

/// The name of the unit of exponent `exp`.
pub open spec fn size_suffix(exp: nat) -> Seq<char> {
    if exp == 0 {
        "B"@
    } else if exp == 1 {
        "KiB"@
    } else if exp == 2 {
        "MiB"@
    } else if exp == 3 {
        "GiB"@
    } else if exp == 4 {
        "TiB"@
    } else if exp == 5 {
        "PiB"@
    } else if exp == 6 {
        "EiB"@
    } else if exp == 7 {
        "ZiB"@
    } else {
        "YiB"@
    }
}

/// A number of tenths as a decimal: the whole part, then a point and the
/// tenth unless that is zero.
pub open spec fn tenths_text(t: nat) -> Seq<char> {
    if t % 10 == 0 {
        decimal(t / 10)
    } else {
        decimal(t / 10) + seq!['.', digit_char((t % 10) as int)]
    }
}

/// A size in bytes as a reader wants it: scaled to the largest unit not
/// above it, a whole number of bytes or one decimal of a larger unit, and the
/// unit's name.
pub open spec fn human_size_text(s: nat) -> Seq<char> {
    let exp = size_exponent(s);
    if exp == 0 {
        decimal(s) + size_suffix(0)
    } else {
        tenths_text(size_tenths(s, exp)) + size_suffix(exp)
    }
}

/// The powers of 1024 that a `u64` reaches.
pub proof fn lemma_size_units()
    ensures
        size_unit(0) == 1,
        size_unit(1) == 0x400,
        size_unit(2) == 0x10_0000,
        size_unit(3) == 0x4000_0000,
        size_unit(4) == 0x100_0000_0000,
        size_unit(5) == 0x4_0000_0000_0000,
        size_unit(6) == 0x1000_0000_0000_0000,
        size_unit(7) == 0x40_0000_0000_0000_0000,
{
    assert(size_unit(1) == 1024 * size_unit(0));
    assert(size_unit(2) == 1024 * size_unit(1));
    assert(size_unit(3) == 1024 * size_unit(2));
    assert(size_unit(4) == 1024 * size_unit(3));
    assert(size_unit(5) == 1024 * size_unit(4));
    assert(size_unit(6) == 1024 * size_unit(5));
    assert(size_unit(7) == 1024 * size_unit(6));
}

/// A size between two neighbouring powers of 1024 has the lower one's
/// exponent.
pub proof fn lemma_size_exponent(s: nat, exp: nat)
    requires
        exp <= 7,
        size_unit(exp) <= s < size_unit(exp + 1),
    ensures
        size_exponent(s) == exp,
    decreases exp,
{
    if exp > 0 {
        assert(size_unit(exp + 1) == 1024 * size_unit(exp));
        assert(size_unit(exp) == 1024 * size_unit((exp - 1) as nat));
        lemma_size_exponent(s / 1024, (exp - 1) as nat);
    } else {
        assert(size_unit(1) == 1024 * size_unit(0));
    }
}

/// The exponent of a size is the whole part of its logarithm to the base
/// 1024, at most 8: the unit of that exponent is not above the size, and
/// below 8 the next unit is.
pub proof fn lemma_size_exponent_is_log(s: nat)
    requires
        s >= 1,
    ensures
        size_exponent(s) <= 8,
        size_unit(size_exponent(s)) <= s,
        size_exponent(s) < 8 ==> s < size_unit(size_exponent(s) + 1),
    decreases s,
{
    if s < 1024 {
        assert(size_unit(1) == 1024 * size_unit(0));
    } else {
        let below = size_exponent(s / 1024);
        lemma_size_exponent_is_log(s / 1024);
        assert(size_unit(below + 1) == 1024 * size_unit(below));
        if below < 7 {
            assert(size_unit(below + 2) == 1024 * size_unit(below + 1));
        } else if below == 7 {
        } else {
            assert(size_unit(8) == 1024 * size_unit(7));
        }
    }
}

/// A size in bytes as a reader wants it, such as `2.2KiB`.
pub fn human_readable_size(s: u64) -> (text: String)
    ensures
        text@ == human_size_text(s as nat),
{
    proof {
        lemma_size_units();
    }
    let mut text = String::new();
    if s < 0x400 {
        push_decimal(&mut text, s);
        text.push('B');
        proof {
            reveal_strlit("B");
        }
        assert(text@ =~= human_size_text(s as nat));
        return text;
    }
    let exp: u8 = if s < 0x10_0000 {
        1
    } else if s < 0x4000_0000 {
        2
    } else if s < 0x100_0000_0000 {
        3
    } else if s < 0x4_0000_0000_0000 {
        4
    } else if s < 0x1000_0000_0000_0000 {
        5
    } else {
        6
    };
    let unit: u64 = if exp == 1 {
        0x400
    } else if exp == 2 {
        0x10_0000
    } else if exp == 3 {
        0x4000_0000
    } else if exp == 4 {
        0x100_0000_0000
    } else if exp == 5 {
        0x4_0000_0000_0000
    } else {
        0x1000_0000_0000_0000
    };
    assert(unit == size_unit(exp as nat));
    assert(unit <= s < 1024 * unit);
    proof {
        assert(size_unit((exp + 1) as nat) == 1024 * size_unit(exp as nat));
        lemma_size_exponent(s as nat, exp as nat);
    }
    let tenths: u128 = (s as u128 * 20 + unit as u128) / (2 * unit as u128);
    assert(tenths == size_tenths(s as nat, exp as nat));
    assert(tenths <= 10240) by (nonlinear_arith)
        requires
            0 < unit,
            s < 1024 * unit,
            tenths == (s * 20 + unit) / (2 * unit),
    ;
    let whole: u64 = (tenths / 10) as u64;
    let tenth: u8 = (tenths % 10) as u8;
    push_decimal(&mut text, whole);
    if tenth != 0 {
        text.push('.');
        text.push((tenth + 48) as char);
    }
    assert(text@ =~= tenths_text(tenths as nat));
    let suffix = if exp == 1 {
        "KiB"
    } else if exp == 2 {
        "MiB"
    } else if exp == 3 {
        "GiB"
    } else if exp == 4 {
        "TiB"
    } else if exp == 5 {
        "PiB"
    } else {
        "EiB"
    };
    text.append(suffix);
    text
}

/// The index of the last slash of `s`, or -1 where it has none.
pub open spec fn last_slash(s: Seq<char>) -> int
    decreases s.len(),
{
    if s.len() == 0 {
        -1
    } else if s.last() == '/' {
        s.len() - 1
    } else {
        last_slash(s.drop_last())
    }
}

/// `u` without the slash that ends it, if one does.
pub open spec fn without_final_slash(u: Seq<char>) -> Seq<char> {
    if u.len() > 0 && u.last() == '/' {
        u.drop_last()
    } else {
        u
    }
}

/// What is left of `u` when its last segment is cut off together with the
/// slash before it; a slash that ends `u` belongs to the segment. `None`
/// where no slash stands before the segment.
pub open spec fn parent_text(u: Seq<char>) -> Option<Seq<char>> {
    let at = last_slash(without_final_slash(u));
    if at < 0 {
        None
    } else {
        Some(u.take(at))
    }
}

/// The parent of the location written `u`: the URL read from `parent_text`,
/// and `u` itself where there is no such text or it is no URL.
pub open spec fn parent_of(u: Seq<char>) -> Seq<char> {
    match parent_text(u) {
        Some(text) => match url_parsed(text) {
            Some(parent) => parent,
            None => u,
        },
        None => u,
    }
}

/// A location is a root when cutting off its last segment leaves no URL.
pub open spec fn is_root(u: Seq<char>) -> bool {
    match parent_text(u) {
        Some(text) => url_parsed(text) is None,
        None => true,
    }
}

/// `at` is the last slash of `s` when a slash stands there, or `at` is -1,
/// and none stands behind it.
pub proof fn lemma_last_slash(s: Seq<char>, at: int)
    requires
        -1 <= at < s.len(),
        at >= 0 ==> s[at] == '/',
        forall|j: int| at < j < s.len() ==> s[j] != '/',
    ensures
        last_slash(s) == at,
    decreases s.len(),
{
    if s.len() > 0 && at < s.len() - 1 {
        lemma_last_slash(s.drop_last(), at);
    }
}

/// The last slash of a text stands where `last_slash` says, and none stands
/// behind it.
pub proof fn lemma_last_slash_is_last(s: Seq<char>)
    ensures
        -1 <= last_slash(s) < s.len(),
        last_slash(s) >= 0 ==> s[last_slash(s)] == '/',
        forall|j: int| last_slash(s) < j < s.len() ==> s[j] != '/',
    decreases s.len(),
{
    if s.len() > 0 && s.last() != '/' {
        lemma_last_slash_is_last(s.drop_last());
        assert forall|j: int| last_slash(s) < j < s.len() implies s[j] != '/' by {
            if j < s.len() - 1 {
                assert(s.drop_last()[j] == s[j]);
            }
        }
    }
}

/// The text from which the parent is read is the location without its last
/// segment and the slash before it: a shorter beginning of the location,
/// behind which a slash stands and then the segment, which holds no slash
/// but one that ends it.
pub proof fn lemma_parent_text_cuts_last_segment(u: Seq<char>)
    requires
        parent_text(u) is Some,
    ensures
        parent_text(u)->0.len() < u.len(),
        parent_text(u)->0 == u.take(parent_text(u)->0.len() as int),
        u[parent_text(u)->0.len() as int] == '/',
        forall|j: int| parent_text(u)->0.len() < j < u.len() - 1 ==> u[j] != '/',
{
    let trimmed = without_final_slash(u);
    lemma_last_slash_is_last(trimmed);
    let at = last_slash(trimmed);
    assert(trimmed[at] == u[at]);
    assert forall|j: int| at < j < u.len() - 1 implies u[j] != '/' by {
        assert(trimmed[j] == u[j]);
    }
}

/// The location one level up, or the location itself where it is a root.
pub fn parent_url(u: &Location) -> (parent: Location)
    ensures
        parent@ == parent_of(u@),
{
    let mut chars = chars_of(u.as_str());
    let mut end: usize = chars.len();
    if end > 0 && chars[end - 1] == '/' {
        end -= 1;
    }
    let ghost trimmed = without_final_slash(u@);
    assert(trimmed =~= chars@.take(end as int));
    let mut at: usize = end;
    while at > 0 && chars[at - 1] != '/'
        invariant
            at <= end <= chars.len(),
            forall|j: int| at <= j < end ==> chars[j] != '/',
        decreases at,
    {
        at -= 1;
    }
    proof {
        lemma_last_slash(trimmed, at as int - 1);
    }
    if at == 0 {
        return u.clone();
    }
    chars.truncate(at - 1);
    assert(chars@ =~= u@.take(at as int - 1));
    let text = string_of(&chars);
    match Location::parse(text.as_str()) {
        Some(parent) => parent,
        None => u.clone(),
    }
}

/// The parent of a root is the root itself.
pub proof fn lemma_parent_of_root(u: Seq<char>)
    requires
        is_root(u),
    ensures
        parent_of(u) == u,
{
}

/// What `percent_decode` of the `url` crate, decoded as UTF-8, makes of
/// `input`; `None` where the decoded bytes are no UTF-8.
pub uninterp spec fn percent_decoded(input: Seq<char>) -> Option<Seq<char>>;

/// Decodes a percent-encoded string, such as a part of a URL. Calls
/// `url::percent_encoding::percent_decode` and its `decode_utf8`. Trusted:
/// the result is the one that `percent_decoded` names.
#[verifier::external_body]
pub fn percent_decode(s: &str) -> (decoded: Option<String>)
    ensures
        option_view(decoded) == percent_decoded(s@),
{
    match url::percent_encoding::percent_decode(s.as_bytes()).decode_utf8() {
        Ok(text) => Some(text.into_owned()),
        Err(_) => None,
    }
}

/// The number of entries listed on one page of a terminal `term_h` rows
/// high: one row is left for the heading and one for spacing.
pub fn max_listing_lines(term_h: usize) -> (lines: usize)
    requires
        term_h >= 2,
    ensures
        lines == term_h - 2,
{
    term_h - 2
}

} // verus!
