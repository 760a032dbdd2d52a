//! Identifiers of surfaces and the addresses that they load.

use vstd::prelude::*;
use vstd::utf8::encode_utf8;
use uuid::Uuid;

verus! {

/// A UUID in hyphenated text form: 36 characters, hyphens at 8, 13, 18, 23.
pub open spec fn hyphenated_shape(s: Seq<char>) -> bool {
    &&& s.len() == 36
    &&& s[8] == '-' && s[13] == '-' && s[18] == '-' && s[23] == '-'
}

/// Relies on uuid::Uuid::new_v4, written out by its Display impl, which is
/// the hyphenated form: a random identifier, of which only the shape is
/// promised.
#[verifier::external_body]
fn random_uuid() -> (r: String)
    ensures
        hyphenated_shape(r@),
{
    Uuid::new_v4().to_string()
}

/// A byte that percent-encoding leaves as it is: an ASCII letter or digit,
/// or one of `-`, `.`, `_`, `~`.
pub open spec fn url_safe(b: u8) -> bool {
    (48 <= b <= 57) || (65 <= b <= 90) || (97 <= b <= 122) || b == 45 || b == 46 || b == 95
        || b == 126
}

/// The upper-case hexadecimal digit for `d` below 16.
pub open spec fn hex_digit(d: u8) -> u8 {
    if d < 10 {
        (48 + d) as u8
    } else {
        (55 + d) as u8
    }
}

/// Percent-encoding of `b`: each unsafe byte becomes `%` and two digits.
pub open spec fn percent_encoded(b: Seq<u8>) -> Seq<u8>
    decreases b.len(),
{
    if b.len() == 0 {
        Seq::empty()
    } else {
        let c = b[0];
        let head = if url_safe(c) {
            seq![c]
        } else {
            seq![37u8, hex_digit(c / 16), hex_digit(c % 16)]
        };
        head + percent_encoded(b.drop_first())
    }
}

/// Relies on urlencoding::encode: every byte of the UTF-8 form but the
/// safe ones percent-encoded with upper-case digits.
#[verifier::external_body]
fn url_encode(s: &str) -> (r: String)
    ensures
        encode_utf8(r@) == percent_encoded(encode_utf8(s@)),
{
    urlencoding::encode(s).into_owned()
}

/// A fresh tab id: `tab-` and a random UUID.
pub fn new_tab_id() -> (r: String)
    ensures
        "tab-"@.is_prefix_of(r@),
        hyphenated_shape(r@.subrange(4, r@.len() as int)),
{
    let mut id = String::from_str("tab-");
    let u = random_uuid();
    id.append(u.as_str());
    proof {
        reveal_strlit("tab-");
        assert(id@.subrange(4, id@.len() as int) =~= u@);
    }
    id
}

/// A fresh label for an idle pooled surface: `pool-` and a random UUID.
pub fn new_pool_label() -> (r: String)
    ensures
        "pool-"@.is_prefix_of(r@),
        hyphenated_shape(r@.subrange(5, r@.len() as int)),
{
    let mut label = String::from_str("pool-");
    let u = random_uuid();
    label.append(u.as_str());
    proof {
        reveal_strlit("pool-");
        assert(label@.subrange(5, label@.len() as int) =~= u@);
    }
    label
}

/// UTF-8 encoding distributes over concatenation.
pub proof fn lemma_encode_utf8_concat(a: Seq<char>, b: Seq<char>)
    ensures
        encode_utf8(a + b) == encode_utf8(a) + encode_utf8(b),
    decreases a.len(),
{
    if a.len() == 0 {
        assert(a + b =~= b);
        assert(encode_utf8(a) + encode_utf8(b) =~= encode_utf8(b));
    } else {
        lemma_encode_utf8_concat(a.drop_first(), b);
        assert((a + b).drop_first() =~= a.drop_first() + b);
        assert((a + b)[0] == a[0]);
        let e = vstd::utf8::encode_scalar(a[0] as u32);
        assert(e + (encode_utf8(a.drop_first()) + encode_utf8(b)) =~= (e + encode_utf8(
            a.drop_first(),
        )) + encode_utf8(b));
    }
}

/// The address a tab of `tab_type` loads, with its document path, if any,
/// percent-encoded.
pub open spec fn tab_url_spec(tab_type: Seq<char>, paper_path: Option<Seq<char>>) -> Seq<u8> {
    encode_utf8("/tab?type="@ + tab_type) + match paper_path {
        Some(p) => encode_utf8("&path="@) + percent_encoded(encode_utf8(p)),
        None => Seq::empty(),
    }
}

/// The address that a surface of `tab_type` loads.
pub fn tab_url(tab_type: &str, paper_path: Option<&str>) -> (r: String)
    ensures
        encode_utf8(r@) == tab_url_spec(
            tab_type@,
            match paper_path {
                Some(p) => Some(p@),
                None => None,
            },
        ),
{
    let mut url = String::from_str("/tab?type=");
    url.append(tab_type);
    let ghost head = url@;
    if let Some(path) = paper_path {
        url.append("&path=");
        let ghost mid = url@;
        let encoded = url_encode(path);
        url.append(encoded.as_str());
        proof {
            lemma_encode_utf8_concat(head, "&path="@);
            lemma_encode_utf8_concat(mid, encoded@);
            assert(encode_utf8(url@) =~= encode_utf8(head) + (encode_utf8("&path="@)
                + percent_encoded(encode_utf8(path@))));
        }
    } else {
        assert(encode_utf8(url@) =~= encode_utf8(head) + Seq::<u8>::empty());
    }
    url
}

} // verus!
