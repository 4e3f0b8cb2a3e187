//! The name under which the device is advertised on the network, and the
//! host name it is built from.

use vstd::prelude::*;

verus! {

/// What every advertised device name starts with.
pub const DEVICE_NAME_PREFIX: &'static str = "TinyConnect";

/// The characters with the Unicode `White_Space` property.
pub open spec fn is_white_space(c: char) -> bool {
    let u = c as u32;
    ||| 0x09 <= u <= 0x0D
    ||| u == 0x20
    ||| u == 0x85
    ||| u == 0xA0
    ||| u == 0x1680
    ||| 0x2000 <= u <= 0x200A
    ||| u == 0x2028
    ||| u == 0x2029
    ||| u == 0x202F
    ||| u == 0x205F
    ||| u == 0x3000
}

/// `s` without its leading white space.
pub open spec fn trim_start_chars(s: Seq<char>) -> Seq<char>
    decreases s.len(),
{
    if s.len() > 0 && is_white_space(s[0]) {
        trim_start_chars(s.drop_first())
    } else {
        s
    }
}

/// `s` without its trailing white space.
pub open spec fn trim_end_chars(s: Seq<char>) -> Seq<char>
    decreases s.len(),
{
    if s.len() > 0 && is_white_space(s.last()) {
        trim_end_chars(s.drop_last())
    } else {
        s
    }
}

/// `s` without its leading and trailing white space.
pub open spec fn trimmed(s: Seq<char>) -> Seq<char> {
    trim_end_chars(trim_start_chars(s))
}

/// ASCII `A`..`Z` mapped to `a`..`z`; every other character unchanged.
pub open spec fn ascii_lower(c: char) -> char {
    if 65 <= (c as u32) <= 90 {
        ((c as u32) + 32) as char
    } else {
        c
    }
}

/// Two texts that are equal once ASCII letters are put in lower case.
pub open spec fn ascii_case_insensitive_eq(a: Seq<char>, b: Seq<char>) -> bool {
    &&& a.len() == b.len()
    &&& forall|i: int| 0 <= i < a.len() ==> #[trigger] ascii_lower(a[i]) == ascii_lower(b[i])
}

/// The host name `t` (already trimmed) is used in the device name: it is not
/// empty and is not the product name itself.
pub open spec fn host_is_distinctive(t: Seq<char>) -> bool {
    t.len() > 0 && !ascii_case_insensitive_eq(t, DEVICE_NAME_PREFIX@)
}

/// The advertised name for a computer whose name is `host`, if known.
pub open spec fn advertised_name(host: Option<Seq<char>>) -> Seq<char> {
    match host {
        Some(h) => if host_is_distinctive(trimmed(h)) {
            DEVICE_NAME_PREFIX@ + " ("@ + trimmed(h) + ")"@
        } else {
            DEVICE_NAME_PREFIX@
        },
        None => DEVICE_NAME_PREFIX@,
    }
}

/// The name of a computer as the system reports it, once decoded: its
/// trimmed text, unless that is empty.
pub open spec fn host_name(decoded: Option<Seq<char>>) -> Option<Seq<char>> {
    match decoded {
        Some(s) => if trimmed(s).len() > 0 {
            Some(trimmed(s))
        } else {
            None
        },
        None => None,
    }
}

/// Every advertised name begins with the product name.
pub proof fn lemma_advertised_name_has_prefix(host: Option<Seq<char>>)
    ensures
        advertised_name(host).len() >= DEVICE_NAME_PREFIX@.len(),
        advertised_name(host).subrange(0, DEVICE_NAME_PREFIX@.len() as int) == DEVICE_NAME_PREFIX@,
{
    let n = advertised_name(host);
    let p = DEVICE_NAME_PREFIX@;
    assert(n.subrange(0, p.len() as int) =~= p);
}

/// Two computers whose names, trimmed, differ and are both used in the
/// device name are advertised under different names; and a computer whose
/// name is used is never advertised under the bare product name.
pub proof fn lemma_distinct_hosts_distinct_names(a: Seq<char>, b: Seq<char>)
    requires
        host_is_distinctive(trimmed(a)),
    ensures
        advertised_name(Some(a)) != DEVICE_NAME_PREFIX@,
        host_is_distinctive(trimmed(b)) && trimmed(a) != trimmed(b) ==> advertised_name(Some(a))
            != advertised_name(Some(b)),
{
    let p = DEVICE_NAME_PREFIX@;
    let ta = trimmed(a);
    let tb = trimmed(b);
    let na = advertised_name(Some(a));
    let nb = advertised_name(Some(b));
    let open = p + " ("@;
    assert(na =~= open + ta + ")"@);
    assert(na.len() > p.len()) by {
        reveal_strlit(" (");
        reveal_strlit(")");
    }
    if host_is_distinctive(tb) && ta != tb && na == nb {
        assert(nb =~= open + tb + ")"@);
        reveal_strlit(")");
        assert(ta.len() == tb.len());
        assert(na.subrange(open.len() as int, (open.len() + ta.len()) as int) =~= ta);
        assert(nb.subrange(open.len() as int, (open.len() + tb.len()) as int) =~= tb);
    }
}

proof fn lemma_trim_start(s: Seq<char>) -> (i: int)
    ensures
        0 <= i <= s.len(),
        trim_start_chars(s) == s.subrange(i, s.len() as int),
        forall|k: int| 0 <= k < i ==> is_white_space(#[trigger] s[k]),
        i < s.len() ==> !is_white_space(s[i]),
    decreases s.len(),
{
    if s.len() > 0 && is_white_space(s[0]) {
        let j = lemma_trim_start(s.drop_first());
        assert(s.drop_first().subrange(j, s.drop_first().len() as int) =~= s.subrange(
            j + 1,
            s.len() as int,
        ));
        assert forall|k: int| 0 <= k < j + 1 implies is_white_space(#[trigger] s[k]) by {
            if k > 0 {
                assert(s[k] == s.drop_first()[k - 1]);
            }
        }
        if j + 1 < s.len() {
            assert(s[j + 1] == s.drop_first()[j]);
        }
        j + 1
    } else {
        assert(s.subrange(0, s.len() as int) =~= s);
        0
    }
}

proof fn lemma_trim_end(s: Seq<char>) -> (j: int)
    ensures
        0 <= j <= s.len(),
        trim_end_chars(s) == s.subrange(0, j),
        forall|k: int| j <= k < s.len() ==> is_white_space(#[trigger] s[k]),
        j > 0 ==> !is_white_space(s[j - 1]),
    decreases s.len(),
{
    if s.len() > 0 && is_white_space(s.last()) {
        let j = lemma_trim_end(s.drop_last());
        assert(s.drop_last().subrange(0, j) =~= s.subrange(0, j));
        assert forall|k: int| j <= k < s.len() implies is_white_space(#[trigger] s[k]) by {
            if k < s.len() - 1 {
                assert(s[k] == s.drop_last()[k]);
            }
        }
        if j > 0 {
            assert(s[j - 1] == s.drop_last()[j - 1]);
        }
        j
    } else {
        assert(s.subrange(0, s.len() as int) =~= s);
        s.len() as int
    }
}

/// `t` is what remains of `s` once its white space is cut from both ends:
/// a contiguous part of `s`, everything of `s` before and after it is white
/// space, and `t` neither starts nor ends with white space.
pub open spec fn is_trim_of(t: Seq<char>, s: Seq<char>) -> bool {
    exists|i: int, j: int|
        0 <= i <= j <= s.len() && t == s.subrange(i, j) && (forall|k: int|
            0 <= k < i ==> is_white_space(#[trigger] s[k])) && (forall|k: int|
            j <= k < s.len() ==> is_white_space(#[trigger] s[k])) && (t.len() > 0 ==> !is_white_space(
            t[0],
        ) && !is_white_space(t.last()))
}

/// Trimming keeps exactly the part of the text between its first and last
/// character that is not white space.
pub proof fn lemma_trimmed_is_trim(s: Seq<char>)
    ensures
        is_trim_of(trimmed(s), s),
        trimmed(s).len() == 0 <==> forall|k: int| 0 <= k < s.len() ==> is_white_space(#[trigger] s[k]),
{
    let i = lemma_trim_start(s);
    let rest = s.subrange(i, s.len() as int);
    let j = lemma_trim_end(rest);
    let t = trimmed(s);
    assert(t == rest.subrange(0, j));
    assert(t =~= s.subrange(i, i + j));
    assert forall|k: int| i + j <= k < s.len() implies is_white_space(#[trigger] s[k]) by {
        assert(s[k] == rest[k - i]);
    }
    if t.len() > 0 {
        assert(t[0] == s[i]);
        assert(t.last() == rest[j - 1]);
    }
    assert(is_trim_of(t, s));
    if t.len() > 0 {
        assert(!is_white_space(s[i]));
    } else {
        assert forall|k: int| 0 <= k < s.len() implies is_white_space(#[trigger] s[k]) by {
            if k >= i {
                assert(s[k] == rest[k - i]);
            }
        }
    }
}

/// The computer's name is the whole decoded text with only its surrounding
/// white space cut, whatever its length; it is absent exactly when the text
/// is missing or all white space.
pub proof fn lemma_host_name_is_whole_trimmed_text(decoded: Option<Seq<char>>)
    ensures
        decoded is None ==> host_name(decoded) is None,
        decoded matches Some(s) ==> (host_name(decoded) is None <==> forall|k: int|
            0 <= k < s.len() ==> is_white_space(#[trigger] s[k])),
        decoded matches Some(s) ==> (host_name(decoded) matches Some(t) ==> t == trimmed(s)
            && is_trim_of(t, s)),
{
    if let Some(s) = decoded {
        lemma_trimmed_is_trim(s);
    }
}

/// A computer whose name is used is advertised as the product name, a
/// space and an opening bracket, the whole trimmed name, and a closing
/// bracket, and nothing else.
pub proof fn lemma_advertised_name_holds_whole_host(h: Seq<char>)
    requires
        host_is_distinctive(trimmed(h)),
    ensures
        advertised_name(Some(h)).len() == DEVICE_NAME_PREFIX@.len() + trimmed(h).len() + 3,
        advertised_name(Some(h)).subrange(0, DEVICE_NAME_PREFIX@.len() as int) == DEVICE_NAME_PREFIX@,
        advertised_name(Some(h))[DEVICE_NAME_PREFIX@.len() as int] == ' ',
        advertised_name(Some(h))[DEVICE_NAME_PREFIX@.len() + 1int] == '(',
        advertised_name(Some(h)).subrange(
            DEVICE_NAME_PREFIX@.len() + 2int,
            DEVICE_NAME_PREFIX@.len() + 2int + trimmed(h).len(),
        ) == trimmed(h),
        advertised_name(Some(h)).last() == ')',
        is_trim_of(trimmed(h), h),
{
    let p = DEVICE_NAME_PREFIX@;
    let t = trimmed(h);
    let n = advertised_name(Some(h));
    reveal_strlit(" (");
    reveal_strlit(")");
    assert(n == p + " ("@ + t + ")"@);
    assert(n.subrange(0, p.len() as int) =~= p);
    assert(n.subrange(p.len() + 2int, p.len() + 2int + t.len()) =~= t);
    lemma_trimmed_is_trim(h);
}

/// An unknown computer name, or one that is blank or the product name in
/// any ASCII case, gives the bare product name.
pub proof fn lemma_fallback_name(host: Option<Seq<char>>)
    ensures
        host is None ==> advertised_name(host) == DEVICE_NAME_PREFIX@,
        host matches Some(h) && !host_is_distinctive(trimmed(h)) ==> advertised_name(host)
            == DEVICE_NAME_PREFIX@,
{
}

/// `str::trim` from std: the slice without leading and trailing characters
/// that have the Unicode `White_Space` property.
#[verifier::external_body]
fn trim<'a>(s: &'a str) -> (t: &'a str)
    ensures
        t@ == trimmed(s@),
{
    s.trim()
}

/// `str::eq_ignore_ascii_case` from std: equality once both sides have their
/// ASCII letters in lower case.
#[verifier::external_body]
fn eq_ignore_ascii_case(a: &str, b: &str) -> (r: bool)
    ensures
        r == ascii_case_insensitive_eq(a@, b@),
{
    a.eq_ignore_ascii_case(b)
}

/// A UTF-16 unit that is not part of a surrogate pair.
pub open spec fn is_plain_unit(u: u16) -> bool {
    u < 0xD800 || u > 0xDFFF
}

/// A leading (high) surrogate.
pub open spec fn is_high_surrogate(u: u16) -> bool {
    0xD800 <= u <= 0xDBFF
}

/// A trailing (low) surrogate.
pub open spec fn is_low_surrogate(u: u16) -> bool {
    0xDC00 <= u <= 0xDFFF
}

/// The text that `units` encode in UTF-16: a plain unit is the character
/// of that code, a high surrogate followed by a low one is the character
/// `0x10000 + (high - 0xD800) * 0x400 + (low - 0xDC00)`, and anything else
/// (a lone or reversed surrogate) makes the whole sequence invalid.
pub open spec fn utf16_decoded(units: Seq<u16>) -> Option<Seq<char>>
    decreases units.len(),
{
    if units.len() == 0 {
        Some(Seq::empty())
    } else if is_plain_unit(units[0]) {
        match utf16_decoded(units.drop_first()) {
            Some(rest) => Some(seq![(units[0] as u32) as char] + rest),
            None => None,
        }
    } else if is_high_surrogate(units[0]) && units.len() >= 2 && is_low_surrogate(units[1]) {
        let code = 0x10000 + (units[0] - 0xD800) * 0x400 + (units[1] - 0xDC00);
        match utf16_decoded(units.subrange(2, units.len() as int)) {
            Some(rest) => Some(seq![(code as u32) as char] + rest),
            None => None,
        }
    } else {
        None
    }
}

/// Units that are not surrogates decode one for one to the characters with
/// those codes.
pub proof fn lemma_plain_units_decode(units: Seq<u16>)
    requires
        forall|i: int| 0 <= i < units.len() ==> #[trigger] is_plain_unit(units[i]),
    ensures
        utf16_decoded(units) == Some(units.map_values(|u: u16| (u as u32) as char)),
    decreases units.len(),
{
    if units.len() > 0 {
        let rest = units.drop_first();
        assert forall|i: int| 0 <= i < rest.len() implies #[trigger] is_plain_unit(rest[i]) by {
            assert(rest[i] == units[i + 1]);
        }
        lemma_plain_units_decode(rest);
        assert(seq![(units[0] as u32) as char] + rest.map_values(|u: u16| (u as u32) as char)
            =~= units.map_values(|u: u16| (u as u32) as char));
    }
}

/// Text that ends in a high surrogate, with no low surrogate after it, is
/// never valid UTF-16; a valid text never has more characters than units.
pub proof fn lemma_utf16_validity(units: Seq<u16>)
    ensures
        units.len() > 0 && is_high_surrogate(units.last()) ==> utf16_decoded(units) is None,
        utf16_decoded(units) matches Some(s) ==> s.len() <= units.len(),
    decreases units.len(),
{
    if units.len() > 0 {
        let u = units[0];
        if is_plain_unit(u) {
            let rest = units.drop_first();
            lemma_utf16_validity(rest);
            if rest.len() > 0 {
                assert(rest.last() == units.last());
            }
        } else if is_high_surrogate(u) && units.len() >= 2 && is_low_surrogate(units[1]) {
            let rest = units.subrange(2, units.len() as int);
            lemma_utf16_validity(rest);
            if rest.len() > 0 {
                assert(rest.last() == units.last());
            }
        }
    }
}

/// `String::from_utf16` from std, its error dropped: the text that `units`
/// encode in UTF-16, or `None` where they hold invalid data.
#[verifier::external_body]
fn decode_utf16(units: &[u16]) -> (r: Option<String>)
    ensures
        r is Some <==> utf16_decoded(units@) is Some,
        r matches Some(s) ==> utf16_decoded(units@) == Some(s@),
{
    String::from_utf16(units).ok()
}

/// The advertised device name: the product name, followed by the computer's
/// name in brackets where that name (trimmed) is neither empty nor the
/// product name in another case.
pub fn advertised_device_name(computer_name: Option<&str>) -> (name: String)
    ensures
        name@ == advertised_name(
            match computer_name {
                Some(h) => Some(h@),
                None => None,
            },
        ),
{
    match computer_name {
        Some(host) => {
            let t = trim(host);
            if !t.is_empty() && !eq_ignore_ascii_case(t, DEVICE_NAME_PREFIX) {
                let mut name = DEVICE_NAME_PREFIX.to_owned();
                name.append(" (");
                name.append(t);
                name.append(")");
                name
            } else {
                DEVICE_NAME_PREFIX.to_owned()
            }
        },
        None => DEVICE_NAME_PREFIX.to_owned(),
    }
}

/// The computer's name from its decoded text: trimmed, and `None` when
/// nothing is left.
pub fn host_name_from_decoded(decoded: Option<String>) -> (name: Option<String>)
    ensures
        (match name {
            Some(n) => Some(n@),
            None => None,
        }) == host_name(
            match decoded {
                Some(d) => Some(d@),
                None => None,
            },
        ),
{
    match decoded {
        Some(text) => {
            let t = trim(text.as_str());
            if t.is_empty() {
                None
            } else {
                Some(t.to_owned())
            }
        },
        None => None,
    }
}

/// The computer's name from the UTF-16 buffer that the system filled and the
/// number of units it reported: `None` when that number is zero or beyond
/// the buffer, when the units are not valid UTF-16, or when the decoded name
/// is blank.
pub fn computer_name_from_buffer(buffer: &[u16], length: u32) -> (name: Option<String>)
    ensures
        length == 0 || length > buffer@.len() ==> name is None,
        0 < length <= buffer@.len() ==> (match name {
            Some(n) => Some(n@),
            None => None,
        }) == host_name(utf16_decoded(buffer@.subrange(0, length as int))),
{
    let length = length as usize;
    if length == 0 || length > buffer.len() {
        return None;
    }
    let units = &buffer[0..length];
    let decoded = decode_utf16(units);
    host_name_from_decoded(decoded)
}

} // verus!
