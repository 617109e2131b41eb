//! The headers of a response, looked up by name.
use vstd::prelude::*;

use super::structures::{headers_view, HttpHeader, HttpHeaderView};
use vstd::string::StringExecFns;

verus! {

/// The headers of a response, in the order in which they came.
#[derive(Debug, PartialEq)]
pub struct HttpHeaderMap {
    pub headers: Vec<HttpHeader>,
}

impl View for HttpHeaderMap {
    type V = Seq<HttpHeaderView>;

    open spec fn view(&self) -> Seq<HttpHeaderView> {
        headers_view(self.headers@)
    }
}

impl Default for HttpHeaderMap {
    /// A map with no headers.
    fn default() -> (res: HttpHeaderMap)
        ensures
            res@ == Seq::<HttpHeaderView>::empty(),
    {
        HttpHeaderMap { headers: Vec::new() }
    }
}

impl From<Vec<HttpHeader>> for HttpHeaderMap {
    /// The map of the given headers, in their order.
    fn from(headers: Vec<HttpHeader>) -> (res: HttpHeaderMap) {
        HttpHeaderMap { headers }
    }
}

impl vstd::std_specs::convert::FromSpecImpl<Vec<HttpHeader>> for HttpHeaderMap {
    open spec fn obeys_from_spec() -> bool {
        true
    }

    open spec fn from_spec(v: Vec<HttpHeader>) -> HttpHeaderMap {
        HttpHeaderMap { headers: v }
    }
}

/// Whether the values of a header form a comma-separated list, so that repeated fields of it
/// are joined: `cache-control` and `www-authenticate`.
pub open spec fn list_based(name: Seq<char>) -> bool {
    name == "cache-control"@ || name == "www-authenticate"@
}

/// The value of the first header with the given name.
pub open spec fn first_value(hs: Seq<HttpHeaderView>, name: Seq<char>) -> Option<Seq<char>>
    decreases hs.len(),
{
    if hs.len() == 0 {
        None
    } else {
        match first_value(hs.drop_last(), name) {
            Some(v) => Some(v),
            None => if hs.last().name == name {
                Some(hs.last().value)
            } else {
                None
            },
        }
    }
}

/// The non-empty values of the headers with the given name, joined with commas.
pub open spec fn joined_values(hs: Seq<HttpHeaderView>, name: Seq<char>) -> Seq<char>
    decreases hs.len(),
{
    if hs.len() == 0 {
        Seq::empty()
    } else {
        let prev = joined_values(hs.drop_last(), name);
        let h = hs.last();
        if h.name != name || h.value.len() == 0 {
            prev
        } else if prev.len() == 0 {
            h.value
        } else {
            prev + seq![','] + h.value
        }
    }
}

/// Whether some header has the given name.
pub open spec fn has_header(hs: Seq<HttpHeaderView>, name: Seq<char>) -> bool {
    exists|i: int| 0 <= i < hs.len() && #[trigger] hs[i].name == name
}

/// The value that `get` computes for a header name: for list-based headers the joined
/// non-empty values of all fields with the name, present when some field has it; for the
/// others the value of the first field with the name.
pub open spec fn lookup(hs: Seq<HttpHeaderView>, name: Seq<char>) -> Option<Seq<char>> {
    if list_based(name) {
        if has_header(hs, name) {
            Some(joined_values(hs, name))
        } else {
            None
        }
    } else {
        first_value(hs, name)
    }
}

/// A header that no field has is looked up as absent.
pub proof fn lemma_absent_header(hs: Seq<HttpHeaderView>, name: Seq<char>)
    requires
        forall|i: int| 0 <= i < hs.len() ==> (#[trigger] hs[i]).name != name,
    ensures
        lookup(hs, name) is None,
    decreases hs.len(),
{
    if hs.len() > 0 {
        assert forall|i: int| 0 <= i < hs.drop_last().len() implies (#[trigger] hs.drop_last()[i]).name
            != name by {
            assert(hs.drop_last()[i] == hs[i]);
        }
        lemma_absent_header(hs.drop_last(), name);
    }
}

/// `cache-control` and `www-authenticate` gather every field: a field of one of them added
/// after the others, with a value that is not empty, is looked up as the values before it and
/// its own joined with a comma (its own alone when nothing came before).
pub proof fn lemma_list_headers_join(hs: Seq<HttpHeaderView>, name: Seq<char>, value: Seq<char>)
    requires
        name == "cache-control"@ || name == "www-authenticate"@,
        value.len() > 0,
    ensures
        lookup(hs.push(HttpHeaderView { name, value }), name) == Some(
            match lookup(hs, name) {
                Some(p) => if p.len() == 0 {
                    value
                } else {
                    p + seq![','] + value
                },
                None => value,
            },
        ),
{
    let h = HttpHeaderView { name, value };
    let hs2 = hs.push(h);
    assert(hs2.drop_last() =~= hs);
    assert(hs2[hs.len() as int] == h);
    assert(has_header(hs2, name));
    if !has_header(hs, name) {
        lemma_no_field_joins_nothing(hs, name);
    }
}

/// With no field of the name, nothing is joined.
proof fn lemma_no_field_joins_nothing(hs: Seq<HttpHeaderView>, name: Seq<char>)
    requires
        !has_header(hs, name),
    ensures
        joined_values(hs, name).len() == 0,
    decreases hs.len(),
{
    if hs.len() > 0 {
        let rest = hs.drop_last();
        assert(!has_header(rest, name)) by {
            if has_header(rest, name) {
                let i = choose|i: int| 0 <= i < rest.len() && #[trigger] rest[i].name == name;
                assert(hs[i] == rest[i]);
            }
        }
        lemma_no_field_joins_nothing(rest, name);
        assert(hs[hs.len() - 1].name != name);
    }
}

/// An empty field of `cache-control` or `www-authenticate` adds nothing to the joined
/// values, though it makes the header present.
pub proof fn lemma_list_headers_skip_empty(hs: Seq<HttpHeaderView>, name: Seq<char>)
    requires
        name == "cache-control"@ || name == "www-authenticate"@,
    ensures
        lookup(hs.push(HttpHeaderView { name, value: Seq::empty() }), name) == Some(
            match lookup(hs, name) {
                Some(p) => p,
                None => Seq::<char>::empty(),
            },
        ),
{
    let h = HttpHeaderView { name, value: Seq::empty() };
    let hs2 = hs.push(h);
    assert(hs2.drop_last() =~= hs);
    assert(hs2[hs.len() as int] == h);
    assert(has_header(hs2, name));
    if !has_header(hs, name) {
        lemma_no_field_joins_nothing(hs, name);
    }
}

/// Any other header is the value of its first field: fields of that name added later change
/// nothing, and the first one added gives its value.
pub proof fn lemma_other_headers_first_wins(hs: Seq<HttpHeaderView>, h: HttpHeaderView)
    requires
        h.name != "cache-control"@,
        h.name != "www-authenticate"@,
    ensures
        lookup(hs.push(h), h.name) == (match lookup(hs, h.name) {
            Some(v) => Some(v),
            None => Some(h.value),
        }),
{
    let hs2 = hs.push(h);
    assert(hs2.drop_last() =~= hs);
}

/// Whether a header's values are in the form of a comma-separated list.
fn is_list_based_header(header_name: &str) -> (res: bool)
    ensures
        res == list_based(header_name@),
{
    let name = String::from_str(header_name);
    let cache_control = String::from_str("cache-control");
    let www_authenticate = String::from_str("www-authenticate");
    name == cache_control || name == www_authenticate
}

impl HttpHeaderMap {
    /// The value of a header. For list-based headers (`cache-control`, `www-authenticate`)
    /// the non-empty values of all fields with the name are joined with commas; for the
    /// others the value of the first field with the name is given.
    pub fn get(&self, header_name: &str) -> (res: Option<String>)
        ensures
            match lookup(self@, header_name@) {
                None => res is None,
                Some(v) => res matches Some(s) && s@ == v,
            },
    {
        let name = String::from_str(header_name);
        let n = self.headers.len();
        if is_list_based_header(header_name) {
            let mut ret = String::new();
            let mut found = false;
            let mut i: usize = 0;
            while i < n
                invariant
                    n == self.headers@.len(),
                    i <= n,
                    name@ == header_name@,
                    ret@ == joined_values(self@.take(i as int), name@),
                    found == has_header(self@.take(i as int), name@),
                decreases n - i,
            {
                let header = &self.headers[i];
                let ghost hs = self@.take(i + 1);
                assert(hs.drop_last() =~= self@.take(i as int));
                assert(hs.last() == header@);
                if header.name == name {
                    found = true;
                    if header.value.as_str().is_empty() {
                    } else if ret.as_str().is_empty() {
                        ret.append(header.value.as_str());
                    } else {
                        ret.append(",");
                        ret.append(header.value.as_str());
                    }
                    proof {
                        reveal_strlit(",");
                        assert(hs[i as int].name == name@);
                    }
                } else {
                    assert forall|k: int| 0 <= k < hs.len() && #[trigger] hs[k].name == name@
                        implies 0 <= k < i by {}
                }
                assert(has_header(self@.take(i as int), name@) ==> has_header(hs, name@)) by {
                    if has_header(self@.take(i as int), name@) {
                        let k = choose|k: int|
                            0 <= k < i && #[trigger] self@.take(i as int)[k].name == name@;
                        assert(hs[k].name == name@);
                    }
                }
                i = i + 1;
                assert(ret@ =~= joined_values(self@.take(i as int), name@));
            }
            assert(self@.take(n as int) =~= self@);
            if found {
                Some(ret)
            } else {
                None
            }
        } else {
            let mut i: usize = 0;
            while i < n
                invariant
                    n == self.headers@.len(),
                    i <= n,
                    name@ == header_name@,
                    !list_based(header_name@),
                    first_value(self@.take(i as int), name@) is None,
                decreases n - i,
            {
                let header = &self.headers[i];
                let ghost hs = self@.take(i + 1);
                assert(hs.drop_last() =~= self@.take(i as int));
                if header.name == name {
                    proof {
                        assert(hs.last() == header@);
                        assert(first_value(hs, name@) == Some(header.value@));
                        lemma_first_value_prefix(self@, i + 1, name@);
                    }
                    let v = header.value.clone();
                    assert(v@ == header.value@);
                    assert(!list_based(header_name@));
                    assert(first_value(self@, header_name@) == Some(v@));
                    return Some(v);
                }
                i = i + 1;
            }
            assert(self@.take(n as int) =~= self@);
            None
        }
    }
}

/// Once a prefix holds a header with the name, the first value is found in it.
proof fn lemma_first_value_prefix(hs: Seq<HttpHeaderView>, k: int, name: Seq<char>)
    requires
        0 <= k <= hs.len(),
        first_value(hs.take(k), name) is Some,
    ensures
        first_value(hs, name) == first_value(hs.take(k), name),
    decreases hs.len() - k,
{
    if k < hs.len() {
        assert(hs.take(k + 1).drop_last() =~= hs.take(k));
        lemma_first_value_prefix(hs, k + 1, name);
    } else {
        assert(hs.take(k) =~= hs);
    }
}

} // verus!
