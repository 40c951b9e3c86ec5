//! Optional filters for listing subscribers and their query-string
//! encoding.
//!
//! Encoding rule: absent fields are omitted entirely (never sent as an
//! empty `key=`); present fields appear in declaration order as
//! `key=value` pairs joined by `&`, values percent-encoded.  A present
//! tag-value match mode is encoded by its lowercase wire form, so
//! `Unspecified` yields `tag_value_match_mode=` with an empty value; this
//! library keeps that distinguishable from an absent field.

use crate::textenc::byte_chars;
use crate::textenc::dec_digits;
use crate::textenc::lemma_ascii_bytes_utf8;
use crate::textenc::lemma_dec_digits;
use crate::textenc::push_dec_u64;
use crate::util::pct_chars;
use crate::util::pct_encode_str;
use crate::util::string_from_utf8;
use vstd::prelude::*;
use vstd::string::StringExecFns;
use vstd::utf8::encode_utf8;

verus! {

/// Serialization of optional filters into a query string.
pub trait QueryParams {
    /// The encoded query string, or `None` when no field is present.
    fn to_query_params(&self) -> Option<String>;
}

/// How tag values are matched when filtering by tag.
#[derive(Debug, Clone, Copy, PartialEq, Eq, Structural)]
pub enum TagValueMatchMode {
    /// Tag values are not matched: list all items regardless of values.
    Unspecified,
    /// Exact match on the tag value.
    Exact,
    /// Prefix match on the tag value.
    Prefix,
}

impl TagValueMatchMode {
    /// The wire form of the mode: its lowercase name, with `Unspecified`
    /// encoding to the empty string.
    pub open spec fn wire_form(&self) -> Seq<char> {
        match self {
            TagValueMatchMode::Unspecified => ""@,
            TagValueMatchMode::Exact => "exact"@,
            TagValueMatchMode::Prefix => "prefix"@,
        }
    }

    /// Renders the wire form of the mode.
    pub fn wire_str(&self) -> (r: &'static str)
        ensures
            r@ == self.wire_form(),
    {
        match self {
            TagValueMatchMode::Unspecified => "",
            TagValueMatchMode::Exact => "exact",
            TagValueMatchMode::Prefix => "prefix",
        }
    }
}

impl Default for TagValueMatchMode {
    /// The default mode matches nothing in particular.
    fn default() -> (r: Self)
        ensures
            r == TagValueMatchMode::Unspecified,
    {
        TagValueMatchMode::Unspecified
    }
}

/// Optional filters for listing subscribers; absent fields are left out of
/// the query string entirely.
#[derive(Debug, Clone, PartialEq)]
pub struct ListSubscribersOptions {
    pub tag_name: Option<String>,
    pub tag_value: Option<String>,
    pub tag_value_match_mode: Option<TagValueMatchMode>,
    pub status_filter: Option<String>,
    pub type_filter: Option<String>,
    pub limit: Option<i16>,
    pub last_evaluated_key: Option<String>,
}

impl Default for ListSubscribersOptions {
    /// No filters at all.
    fn default() -> (r: Self)
        ensures
            r.tag_name is None,
            r.tag_value is None,
            r.tag_value_match_mode is None,
            r.status_filter is None,
            r.type_filter is None,
            r.limit is None,
            r.last_evaluated_key is None,
    {
        ListSubscribersOptions {
            tag_name: None,
            tag_value: None,
            tag_value_match_mode: None,
            status_filter: None,
            type_filter: None,
            limit: None,
            last_evaluated_key: None,
        }
    }
}

/// Decimal text of an integer.
pub open spec fn int_text(n: int) -> Seq<char> {
    if n < 0 {
        seq!['-'] + byte_chars(dec_digits((-n) as nat))
    } else {
        byte_chars(dec_digits(n as nat))
    }
}

/// The present fields of an option set, in declaration order, with their
/// raw (not yet percent-encoded) value text.
pub open spec fn qs_pairs(o: ListSubscribersOptions) -> Seq<(Seq<char>, Seq<char>)> {
    let s0 = Seq::<(Seq<char>, Seq<char>)>::empty();
    let s1 = if o.tag_name is Some {
        s0.push(("tag_name"@, o.tag_name.unwrap()@))
    } else {
        s0
    };
    let s2 = if o.tag_value is Some {
        s1.push(("tag_value"@, o.tag_value.unwrap()@))
    } else {
        s1
    };
    let s3 = if o.tag_value_match_mode is Some {
        s2.push(("tag_value_match_mode"@, o.tag_value_match_mode.unwrap().wire_form()))
    } else {
        s2
    };
    let s4 = if o.status_filter is Some {
        s3.push(("status_filter"@, o.status_filter.unwrap()@))
    } else {
        s3
    };
    let s5 = if o.type_filter is Some {
        s4.push(("type_filter"@, o.type_filter.unwrap()@))
    } else {
        s4
    };
    let s6 = if o.limit is Some {
        s5.push(("limit"@, int_text(o.limit.unwrap() as int)))
    } else {
        s5
    };
    let s7 = if o.last_evaluated_key is Some {
        s6.push(("last_evaluated_key"@, o.last_evaluated_key.unwrap()@))
    } else {
        s6
    };
    s7
}

/// The rendered query string of a pair list: `key=value` joined by `&`,
/// values percent-encoded.
pub open spec fn render_qs(ps: Seq<(Seq<char>, Seq<char>)>) -> Seq<char>
    decreases ps.len(),
{
    if ps.len() == 0 {
        Seq::empty()
    } else {
        let head = ps[0].0 + "="@ + pct_chars(ps[0].1);
        if ps.len() == 1 {
            head
        } else {
            head + "&"@ + render_qs(ps.drop_first())
        }
    }
}

/// Rendering after appending one pair extends the rendering, with `&` in
/// between if anything came before.
pub proof fn lemma_render_append(ps: Seq<(Seq<char>, Seq<char>)>, p: (Seq<char>, Seq<char>))
    ensures
        render_qs(ps.push(p)) == if ps.len() == 0 {
            p.0 + "="@ + pct_chars(p.1)
        } else {
            render_qs(ps) + "&"@ + (p.0 + "="@ + pct_chars(p.1))
        },
    decreases ps.len(),
{
    let whole = ps.push(p);
    if ps.len() == 0 {
        assert(whole.len() == 1);
        assert(whole[0] == p);
        assert(render_qs(whole) == p.0 + "="@ + pct_chars(p.1));
    } else {
        lemma_render_append(ps.drop_first(), p);
        assert(whole.drop_first() =~= ps.drop_first().push(p));
        assert(whole[0] == ps[0]);
        let head = ps[0].0 + "="@ + pct_chars(ps[0].1);
        if ps.len() == 1 {
            assert(ps.drop_first().len() == 0);
            assert(render_qs(whole) == head + "&"@ + render_qs(whole.drop_first()));
            assert(render_qs(whole.drop_first()) == p.0 + "="@ + pct_chars(p.1));
            assert(render_qs(ps) == head);
        } else {
            assert(render_qs(whole) == head + "&"@ + render_qs(whole.drop_first()));
            assert(render_qs(ps) == head + "&"@ + render_qs(ps.drop_first()));
            assert((head + "&"@ + (render_qs(ps.drop_first()) + "&"@ + (p.0 + "="@ + pct_chars(
                p.1,
            )))) =~= ((head + "&"@ + render_qs(ps.drop_first())) + "&"@ + (p.0 + "="@ + pct_chars(
                p.1,
            ))));
        }
    }
}

/// Appends `key=value` to a query string under construction, preceded by
/// `&` unless it is the first pair; `ps` is the pair list rendered so far.
fn append_pair(
    out: &mut String,
    first: &mut bool,
    key: &str,
    value: &str,
    Ghost(ps): Ghost<Seq<(Seq<char>, Seq<char>)>>,
)
    requires
        old(out)@ == render_qs(ps),
        *old(first) == (ps.len() == 0),
    ensures
        final(out)@ == render_qs(ps.push((key@, value@))),
        *final(first) == false,
{
    if !*first {
        out.append("&");
    }
    out.append(key);
    out.append("=");
    let enc = pct_encode_str(value);
    out.append(enc.as_str());
    *first = false;
    proof {
        lemma_render_append(ps, (key@, value@));
        if ps.len() == 0 {
            assert(out@ =~= (key@ + "="@ + pct_chars(value@)));
        } else {
            assert(out@ =~= render_qs(ps) + "&"@ + (key@ + "="@ + pct_chars(value@)));
        }
    }
}

/// Renders the decimal text of a 16-bit count.
fn limit_string(n: i16) -> (r: String)
    ensures
        r@ == int_text(n as int),
{
    let mut bytes: Vec<u8> = Vec::new();
    if n < 0 {
        bytes.push(0x2d);
        let mag: u64 = (-(n as i64)) as u64;
        push_dec_u64(&mut bytes, mag);
    } else {
        push_dec_u64(&mut bytes, n as u64);
    }
    proof {
        if n < 0 {
            lemma_dec_digits((-(n as int)) as nat);
            assert(bytes@ =~= seq![0x2du8] + dec_digits((-(n as int)) as nat));
        } else {
            lemma_dec_digits(n as nat);
            assert(bytes@ =~= dec_digits(n as nat));
        }
        assert forall|i: int| 0 <= i < bytes@.len() implies #[trigger] bytes@[i] < 0x80 by {
            if n < 0 {
                let dd = dec_digits((-(n as int)) as nat);
                if i > 0 {
                    assert(bytes@[i] == dd[i - 1]);
                    assert(crate::textenc::is_digit(dd[i - 1]));
                }
            } else {
                assert(crate::textenc::is_digit(bytes@[i]));
            }
        }
        lemma_ascii_bytes_utf8(bytes@);
        assert(int_text(n as int) =~= Seq::new(bytes@.len(), |i: int| bytes@[i] as char));
    }
    match string_from_utf8(bytes) {
        Some(s) => s,
        None => {
            proof {
                assert(false);
            }
            String::new()
        },
    }
}

impl ListSubscribersOptions {
    /// Encodes the present fields as a query string: `None` when every
    /// field is absent, otherwise the `&`-joined `key=value` pairs with
    /// percent-encoded values.
    #[verifier::rlimit(100)]
    pub fn to_query_params(&self) -> (r: Option<String>)
        ensures
            match r {
                Some(s) => qs_pairs(*self).len() > 0 && s@ == render_qs(qs_pairs(*self)),
                None => qs_pairs(*self).len() == 0,
            },
    {
        let mut out: String = String::new();
        let mut first: bool = true;
        let ghost mut ps = Seq::<(Seq<char>, Seq<char>)>::empty();
        match &self.tag_name {
            Some(v) => {
                append_pair(&mut out, &mut first, "tag_name", v.as_str(), Ghost(ps));
                proof {
                    ps = ps.push(("tag_name"@, v@));
                }
            },
            None => {},
        }
        match &self.tag_value {
            Some(v) => {
                append_pair(&mut out, &mut first, "tag_value", v.as_str(), Ghost(ps));
                proof {
                    ps = ps.push(("tag_value"@, v@));
                }
            },
            None => {},
        }
        match &self.tag_value_match_mode {
            Some(m) => {
                let w = m.wire_str();
                append_pair(&mut out, &mut first, "tag_value_match_mode", w, Ghost(ps));
                proof {
                    ps = ps.push(("tag_value_match_mode"@, w@));
                }
            },
            None => {},
        }
        match &self.status_filter {
            Some(v) => {
                append_pair(&mut out, &mut first, "status_filter", v.as_str(), Ghost(ps));
                proof {
                    ps = ps.push(("status_filter"@, v@));
                }
            },
            None => {},
        }
        match &self.type_filter {
            Some(v) => {
                append_pair(&mut out, &mut first, "type_filter", v.as_str(), Ghost(ps));
                proof {
                    ps = ps.push(("type_filter"@, v@));
                }
            },
            None => {},
        }
        match &self.limit {
            Some(n) => {
                let v = limit_string(*n);
                append_pair(&mut out, &mut first, "limit", v.as_str(), Ghost(ps));
                proof {
                    ps = ps.push(("limit"@, v@));
                }
            },
            None => {},
        }
        match &self.last_evaluated_key {
            Some(v) => {
                append_pair(&mut out, &mut first, "last_evaluated_key", v.as_str(), Ghost(ps));
                proof {
                    ps = ps.push(("last_evaluated_key"@, v@));
                }
            },
            None => {},
        }
        proof {
            assert(ps == qs_pairs(*self));
        }
        if first {
            None
        } else {
            Some(out)
        }
    }
}

impl QueryParams for ListSubscribersOptions {
    /// The encoded query string, or `None` when no field is present.
    fn to_query_params(&self) -> Option<String> {
        ListSubscribersOptions::to_query_params(self)
    }
}

/// An option set with every field absent yields no query pairs at all, so
/// the default option set serializes to `None`.
pub proof fn lemma_empty_options_no_query(o: ListSubscribersOptions)
    requires
        o.tag_name is None,
        o.tag_value is None,
        o.tag_value_match_mode is None,
        o.status_filter is None,
        o.type_filter is None,
        o.limit is None,
        o.last_evaluated_key is None,
    ensures
        qs_pairs(o).len() == 0,
{
}

/// An option set whose only present field is `tag_name` renders as exactly
/// one `tag_name=` pair and nothing else; when the value needs no escaping
/// the pair is literally `tag_name=` followed by the value.
pub proof fn lemma_tag_name_only_query(o: ListSubscribersOptions)
    requires
        o.tag_name is Some,
        o.tag_value is None,
        o.tag_value_match_mode is None,
        o.status_filter is None,
        o.type_filter is None,
        o.limit is None,
        o.last_evaluated_key is None,
    ensures
        render_qs(qs_pairs(o)) == "tag_name"@ + "="@ + pct_chars(o.tag_name.unwrap()@),
        (forall|i: int|
            0 <= i < encode_utf8(o.tag_name.unwrap()@).len() ==> crate::textenc::is_unreserved(
                #[trigger] encode_utf8(o.tag_name.unwrap()@)[i],
            )) ==> pct_chars(o.tag_name.unwrap()@) == byte_chars(encode_utf8(o.tag_name.unwrap()@)),
{
    let ps = qs_pairs(o);
    assert(ps.len() == 1);
    assert(ps[0] == ("tag_name"@, o.tag_name.unwrap()@));
    let vb = encode_utf8(o.tag_name.unwrap()@);
    if forall|i: int|
        0 <= i < vb.len() ==> crate::textenc::is_unreserved(#[trigger] vb[i]) {
        crate::textenc::lemma_pct_bytes_unreserved(vb);
        assert(pct_chars(o.tag_name.unwrap()@) =~= byte_chars(vb));
    }
}

} // verus!
