//! The attributes of a request or response, kept after the live headers are
//! gone, as the expressions of a configuration see them.

use std::collections::HashMap;
use pdk::script::AttributesBinding;
use vstd::prelude::*;
use vstd::string::*;
use crate::text::{decimal, decimal_text, lower, same_text};

verus! {

/// The name and the value of a header.
pub type Header = (Seq<char>, Seq<char>);

/// An owned snapshot of the headers of a request or response. The
/// pseudo-headers `:method`, `:path` and `:status` stand behind
/// `attributes.method`, `attributes.requestUri` and `attributes.statusCode`;
/// they are left out of the map of headers.
pub struct OwnedAttributes {
    pub headers: Vec<(String, String)>,
}

/// Names and values of headers, each text as a sequence of characters.
pub open spec fn header_model(headers: Seq<(String, String)>) -> Seq<Header> {
    headers.map_values(|h: (String, String)| (h.0@, h.1@))
}

impl View for OwnedAttributes {
    type V = Seq<Header>;

    open spec fn view(&self) -> Seq<Header> {
        header_model(self.headers@)
    }
}

/// A text that may be absent, as a sequence of characters.
pub open spec fn text_model(text: Option<String>) -> Option<Seq<char>> {
    match text {
        Some(t) => Some(t@),
        None => None,
    }
}

/// Whether a header keeps its place beside the pseudo-headers that are given:
/// each of these replaces the headers of its name, in any case.
pub open spec fn kept(name: Seq<char>, method: bool, path: bool, status: bool) -> bool {
    &&& !(method && lower(name) == ":method"@)
    &&& !(path && lower(name) == ":path"@)
    &&& !(status && lower(name) == ":status"@)
}

/// A header of the given name, or nothing where there is no value.
pub open spec fn pseudo(name: Seq<char>, value: Option<Seq<char>>) -> Seq<Header> {
    match value {
        Some(v) => seq![(name, v)],
        None => seq![],
    }
}

/// The headers of a snapshot: those that are kept, then the pseudo-headers.
pub open spec fn snapshot(
    headers: Seq<Header>,
    method: Option<Seq<char>>,
    path: Option<Seq<char>>,
    status: Option<nat>,
) -> Seq<Header> {
    headers.filter(|h: Header| kept(h.0, method is Some, path is Some, status is Some))
        + pseudo(":method"@, method) + pseudo(":path"@, path) + pseudo(
        ":status"@,
        match status {
            Some(s) => Some(decimal(s)),
            None => None,
        },
    )
}

/// The value of the first header whose name is `key`, in any case.
pub open spec fn header_value(headers: Seq<Header>, key: Seq<char>) -> Option<Seq<char>>
    decreases headers.len(),
{
    if headers.len() == 0 {
        None
    } else if lower(headers[0].0) == lower(key) {
        Some(headers[0].1)
    } else {
        header_value(headers.drop_first(), key)
    }
}

/// Whether a header of this name stands in the map of headers: its name does
/// not start with a colon.
pub open spec fn visible(name: Seq<char>) -> bool {
    !(name.len() > 0 && name[0] == ':')
}

/// The map of the visible headers; where a name comes twice, the later value
/// stands.
pub open spec fn visible_map(headers: Seq<(String, String)>) -> Map<String, String>
    decreases headers.len(),
{
    if headers.len() == 0 {
        Map::empty()
    } else {
        let rest = visible_map(headers.drop_last());
        if visible(headers.last().0@) {
            rest.insert(headers.last().0, headers.last().1)
        } else {
            rest
        }
    }
}

/// A map after these pairs were inserted into it, one after the other; where a
/// key comes twice, the later value stands.
pub open spec fn inserted(map: Map<String, String>, pairs: Seq<(String, String)>) -> Map<
    String,
    String,
>
    decreases pairs.len(),
{
    if pairs.len() == 0 {
        map
    } else {
        inserted(map, pairs.drop_last()).insert(pairs.last().0, pairs.last().1)
    }
}

/// `HashMap::extend`: inserts the pairs in their order; the value of a key that
/// is there already is replaced.
#[verifier::external_body]
fn insert_all(map: &mut HashMap<String, String>, pairs: Vec<(String, String)>)
    ensures
        final(map)@ == inserted(old(map)@, pairs@),
{
    map.extend(pairs)
}

/// A text that may be absent, as a sequence of characters.
pub open spec fn str_model(text: Option<&str>) -> Option<Seq<char>> {
    match text {
        Some(t) => Some(t@),
        None => None,
    }
}

/// A status that may be absent, as a number.
pub open spec fn status_model(status: Option<u32>) -> Option<nat> {
    match status {
        Some(s) => Some(s as nat),
        None => None,
    }
}

fn is_kept(name: &str, method: bool, path: bool, status: bool) -> (r: bool)
    ensures
        r == kept(name@, method, path, status),
{
    let lowered = name.to_ascii_lowercase();
    !(method && same_text(lowered.as_str(), ":method")) && !(path && same_text(
        lowered.as_str(),
        ":path",
    )) && !(status && same_text(lowered.as_str(), ":status"))
}

/// A header that gives way to a pseudo-header starts with a colon, and so do
/// the pseudo-headers.
proof fn lemma_pseudo_names_are_hidden(name: Seq<char>)
    ensures
        !visible(":method"@),
        !visible(":path"@),
        !visible(":status"@),
        lower(name) == ":method"@ || lower(name) == ":path"@ || lower(name) == ":status"@
            ==> !visible(name),
{
    reveal_strlit(":method");
    reveal_strlit(":path");
    reveal_strlit(":status");
    if lower(name) == ":method"@ || lower(name) == ":path"@ || lower(name) == ":status"@ {
        assert(name.len() == lower(name).len());
        assert(lower(name)[0] == ':');
    }
}

fn is_visible(name: &str) -> (r: bool)
    ensures
        r == visible(name@),
{
    name.is_empty() || name.get_char(0) != ':'
}

impl OwnedAttributes {
    /// Takes a snapshot of headers. Each pseudo-header that is given replaces
    /// the headers of its name and comes last. The map of headers is that of
    /// the headers given, whatever pseudo-headers are.
    pub fn new(
        headers: Vec<(String, String)>,
        method: Option<&str>,
        path: Option<&str>,
        status: Option<u32>,
    ) -> (r: Self)
        ensures
            r@ == snapshot(
                header_model(headers@),
                str_model(method),
                str_model(path),
                status_model(status),
            ),
            visible_map(r.headers@) == visible_map(headers@),
    {
        let ghost model = header_model(headers@);
        let ghost keep = |h: Header| kept(h.0, method is Some, path is Some, status is Some);
        let mut result: Vec<(String, String)> = Vec::new();
        let mut i: usize = 0;
        while i < headers.len()
            invariant
                i <= headers@.len(),
                model == header_model(headers@),
                keep == (|h: Header| kept(h.0, method is Some, path is Some, status is Some)),
                header_model(result@) == model.take(i as int).filter(keep),
                visible_map(result@) == visible_map(headers@.take(i as int)),
            decreases headers@.len() - i,
        {
            let ghost before = result@;
            if is_kept(headers[i].0.as_str(), method.is_some(), path.is_some(), status.is_some()) {
                result.push((headers[i].0.clone(), headers[i].1.clone()));
            }
            proof {
                let shorter = model.take(i as int);
                let longer = model.take(i + 1);
                assert(longer.drop_last() =~= shorter);
                assert(longer.last() == (headers@[i as int].0@, headers@[i as int].1@));
                reveal(Seq::filter);
                lemma_pseudo_names_are_hidden(headers@[i as int].0@);
                assert(headers@.take(i + 1).drop_last() =~= headers@.take(i as int));
                if keep(longer.last()) {
                    assert(header_model(result@) =~= header_model(before).push(longer.last()));
                    assert(result@.drop_last() =~= before);
                } else {
                    assert(header_model(result@) =~= header_model(before));
                }
            }
            i += 1;
        }
        proof {
            assert(model.take(i as int) =~= model);
            assert(headers@.take(i as int) =~= headers@);
            lemma_pseudo_names_are_hidden(seq![]);
        }
        let ghost retained = header_model(result@);
        let ghost before = result@;
        if let Some(m) = method {
            result.push((":method".to_owned(), m.to_owned()));
        }
        proof {
            if method is Some {
                assert(result@.drop_last() =~= before);
            }
            assert(visible_map(result@) == visible_map(headers@));
            assert(header_model(result@) =~= retained + pseudo(":method"@, str_model(method)));
        }
        let ghost with_method = header_model(result@);
        let ghost before = result@;
        if let Some(p) = path {
            result.push((":path".to_owned(), p.to_owned()));
        }
        proof {
            if path is Some {
                assert(result@.drop_last() =~= before);
            }
            assert(visible_map(result@) == visible_map(headers@));
            assert(header_model(result@) =~= with_method + pseudo(":path"@, str_model(path)));
        }
        let ghost before = result@;
        if let Some(s) = status {
            result.push((":status".to_owned(), decimal_text(s as u128)));
        }
        proof {
            if status is Some {
                assert(result@.drop_last() =~= before);
            }
            assert(visible_map(result@) == visible_map(headers@));
            assert(header_model(result@) =~= snapshot(
                model,
                str_model(method),
                str_model(path),
                status_model(status),
            ));
        }
        Self { headers: result }
    }
}

impl AttributesBinding for OwnedAttributes {
    fn extract_headers(&self) -> (r: HashMap<String, String>)
        ensures
            r@ == visible_map(self.headers@),
    {
        let mut pairs: Vec<(String, String)> = Vec::new();
        let mut i: usize = 0;
        while i < self.headers.len()
            invariant
                i <= self.headers@.len(),
                inserted(Map::empty(), pairs@) == visible_map(self.headers@.take(i as int)),
            decreases self.headers@.len() - i,
        {
            let ghost before = pairs@;
            if is_visible(self.headers[i].0.as_str()) {
                pairs.push((self.headers[i].0.clone(), self.headers[i].1.clone()));
                proof {
                    assert(pairs@.drop_last() =~= before);
                }
            }
            proof {
                assert(self.headers@.take(i + 1).drop_last() =~= self.headers@.take(i as int));
            }
            i += 1;
        }
        proof {
            assert(self.headers@.take(i as int) =~= self.headers@);
        }
        let mut map: HashMap<String, String> = HashMap::new();
        insert_all(&mut map, pairs);
        map
    }

    fn extract_header(&self, key: &str) -> (r: Option<String>)
        ensures
            text_model(r) == header_value(self@, key@),
    {
        let lowered = key.to_ascii_lowercase();
        let mut i: usize = 0;
        proof {
            assert(self@.skip(0) =~= self@);
        }
        while i < self.headers.len()
            invariant
                i <= self.headers@.len(),
                lowered@ == lower(key@),
                header_value(self@, key@) == header_value(self@.skip(i as int), key@),
            decreases self.headers@.len() - i,
        {
            let name = self.headers[i].0.as_str().to_ascii_lowercase();
            proof {
                assert(self@.skip(i as int)[0] == self@[i as int]);
                assert(self@.skip(i as int).drop_first() =~= self@.skip(i + 1));
            }
            if name == lowered {
                return Some(self.headers[i].1.clone());
            }
            i += 1;
        }
        None
    }
}

} // verus!
