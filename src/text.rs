use vstd::prelude::*;

verus! {

/// What `html_escape::decode_html_entities` makes of a text.
pub uninterp spec fn entities_decoded(s: Seq<char>) -> Seq<char>;

/// What `sanitize_filename_reader_friendly::sanitize` makes of a name.
pub uninterp spec fn sanitized(s: Seq<char>) -> Seq<char>;

/// Relies on `html_escape::decode_html_entities`: the decoded text depends
/// on the input text alone.
#[verifier::external_body]
fn decode_html(s: &str) -> (r: String)
    ensures
        r@ == entities_decoded(s@),
{
    html_escape::decode_html_entities(s).into_owned()
}

/// Relies on `sanitize_filename_reader_friendly::sanitize`: the file name
/// depends on the input name alone.
#[verifier::external_body]
fn sanitize_file_name(s: &str) -> (r: String)
    ensures
        r@ == sanitized(s@),
{
    sanitize_filename_reader_friendly::sanitize(s)
}

/// Decodes the HTML entities of a text taken from a page.
pub fn decode_entities(s: &str) -> (r: String)
    ensures
        r@ == entities_decoded(s@),
{
    decode_html(s)
}

/// Turns a catalog name into a name that is safe as one path component.
pub fn sanitize_name(s: &str) -> (r: String)
    ensures
        r@ == sanitized(s@),
{
    sanitize_file_name(s)
}

pub open spec fn is_digit(c: char) -> bool {
    '0' <= c && c <= '9'
}

pub open spec fn digit_value(c: char) -> nat {
    (c as nat - '0' as nat) as nat
}

/// The number that a sequence of decimal digits spells, most significant first.
pub open spec fn digits_value(s: Seq<char>) -> nat
    decreases s.len(),
{
    if s.len() == 0 {
        0
    } else {
        digits_value(s.drop_last()) * 10 + digit_value(s.last())
    }
}

/// `s` is a non-empty run of decimal digits.
pub open spec fn all_digits(s: Seq<char>) -> bool {
    s.len() > 0 && forall|i: int| 0 <= i < s.len() ==> is_digit(#[trigger] s[i])
}

/// The length of the fixed prefix in front of the number in a sheet row's `id`.
pub const ID_PREFIX_LEN: usize = 5;

/// The sheet identifier that an `id` attribute encodes: whatever stands after
/// the fixed-length prefix, read as a decimal number that fits in `u32`.
pub open spec fn sheet_id_of(attr: Seq<char>) -> Option<u32> {
    let rest = attr.skip(ID_PREFIX_LEN as int);
    if attr.len() >= ID_PREFIX_LEN && all_digits(rest) && digits_value(rest) <= u32::MAX {
        Some(digits_value(rest) as u32)
    } else {
        None
    }
}

/// Reads the sheet identifier out of a sheet row's `id` attribute.
pub fn parse_sheet_id(attr: &str) -> (r: Option<u32>)
    ensures
        r == sheet_id_of(attr@),
{
    let n = attr.unicode_len();
    if n <= ID_PREFIX_LEN {
        proof {
            if n >= ID_PREFIX_LEN {
                assert(attr@.skip(ID_PREFIX_LEN as int).len() == 0);
            }
        }
        return None;
    }
    let ghost rest = attr@.skip(ID_PREFIX_LEN as int);
    let mut value: u64 = 0;
    let mut i: usize = ID_PREFIX_LEN;
    while i < n
        invariant
            n == attr@.len(),
            ID_PREFIX_LEN <= i <= n,
            rest == attr@.skip(ID_PREFIX_LEN as int),
            forall|k: int| 0 <= k < i - ID_PREFIX_LEN ==> is_digit(#[trigger] rest[k]),
            value == digits_value(rest.take(i - ID_PREFIX_LEN)),
            value <= u32::MAX,
        decreases n - i,
    {
        let c = attr.get_char(i);
        let ghost j = i - ID_PREFIX_LEN;
        assert(rest[j] == c);
        assert(rest.take(j + 1).drop_last() == rest.take(j));
        if !('0' <= c && c <= '9') {
            proof {
                assert(!all_digits(rest));
            }
            return None;
        }
        let d = (c as u32 - '0' as u32) as u64;
        let next = value * 10 + d;
        if next > u32::MAX as u64 {
            proof {
                assert(rest.take(j + 1).last() == c);
                assert(digits_value(rest.take(j + 1)) == next);
                if all_digits(rest) {
                    lemma_prefix_value_bound(rest, j + 1);
                }
            }
            return None;
        }
        value = next;
        i = i + 1;
    }
    proof {
        assert(rest.take(n - ID_PREFIX_LEN) == rest);
    }
    Some(value as u32)
}

/// The value of a prefix of a run of digits is at most the value of the run.
proof fn lemma_prefix_value_bound(s: Seq<char>, k: int)
    requires
        0 <= k <= s.len(),
        all_digits(s),
    ensures
        digits_value(s.take(k)) <= digits_value(s),
    decreases s.len() - k,
{
    if k < s.len() {
        lemma_prefix_value_bound(s, k + 1);
        assert(s.take(k + 1).drop_last() == s.take(k));
    } else {
        assert(s.take(k) == s);
    }
}

} // verus!
