//! The search box of the tunnel list: a tunnel is shown when the query is
//! empty or its name contains the query, compared in lower case.
use vstd::prelude::*;
use crate::definition::TunnelDefinition;

verus! {

/// The lower-case form of a text.
pub uninterp spec fn lower_of(s: Seq<char>) -> Seq<char>;

/// Relies on `str::to_lowercase`: the result depends on the characters
/// alone.
#[verifier::external_body]
fn lowercase(s: &str) -> (r: String)
    ensures
        r@ == lower_of(s@),
{
    s.to_lowercase()
}

/// `needle` occurs in `hay` as a run of consecutive characters.
pub open spec fn contains_text(hay: Seq<char>, needle: Seq<char>) -> bool {
    exists|i: int| 0 <= i && i + needle.len() <= hay.len() && #[trigger] hay.subrange(i, i + needle.len()) == needle
}

/// Whether a name matches a search query.
pub open spec fn search_hit(query: Seq<char>, name: Seq<char>) -> bool {
    query.len() == 0 || contains_text(lower_of(name), lower_of(query))
}

/// The definitions of `defs` whose names match `query`, in order.
pub open spec fn shown(defs: Seq<TunnelDefinition>, query: Seq<char>) -> Seq<TunnelDefinition>
    decreases defs.len(),
{
    if defs.len() == 0 {
        Seq::empty()
    } else if search_hit(query, defs.last().params.name@) {
        shown(defs.drop_last(), query).push(defs.last())
    } else {
        shown(defs.drop_last(), query)
    }
}

/// Whether `needle` occurs at position `at` of `hay`.
fn occurs_at(hay: &Vec<char>, needle: &Vec<char>, at: usize) -> (r: bool)
    requires
        at + needle@.len() <= hay@.len(),
    ensures
        r == (hay@.subrange(at as int, at + needle@.len()) == needle@),
{
    let hay_len = hay.len();
    let mut j: usize = 0;
    while j < needle.len()
        invariant
            hay_len == hay@.len(),
            j <= needle@.len(),
            at + needle@.len() <= hay@.len(),
            forall|k: int| 0 <= k < j ==> hay@[at + k] == needle@[k],
        decreases needle@.len() - j,
    {
        if hay[at + j] != needle[j] {
            proof {
                assert(hay@.subrange(at as int, at + needle@.len())[j as int] != needle@[j as int]);
            }
            return false;
        }
        j += 1;
    }
    proof {
        assert(hay@.subrange(at as int, at + needle@.len()) =~= needle@);
    }
    true
}

fn to_chars(s: &str) -> (r: Vec<char>)
    ensures
        r@ == s@,
{
    let n = s.unicode_len();
    let mut out: Vec<char> = Vec::new();
    let mut i: usize = 0;
    while i < n
        invariant
            n == s@.len(),
            i <= n,
            out@ == s@.subrange(0, i as int),
        decreases n - i,
    {
        out.push(s.get_char(i));
        i += 1;
        proof {
            assert(out@ =~= s@.subrange(0, i as int));
        }
    }
    proof {
        assert(s@.subrange(0, n as int) =~= s@);
    }
    out
}

/// Whether `needle` occurs in `hay`.
pub fn contains_str(hay: &str, needle: &str) -> (r: bool)
    ensures
        r == contains_text(hay@, needle@),
{
    let h = to_chars(hay);
    let n = to_chars(needle);
    if n.len() > h.len() {
        return false;
    }
    let last = h.len() - n.len();
    let mut at: usize = 0;
    loop
        invariant
            at <= last,
            last == h@.len() - n@.len(),
            n@.len() <= h@.len(),
            h@ == hay@,
            n@ == needle@,
            forall|i: int| 0 <= i < at ==> #[trigger] hay@.subrange(i, i + needle@.len()) != needle@,
        decreases last - at,
    {
        if occurs_at(&h, &n, at) {
            return true;
        }
        if at == last {
            proof {
                assert forall|i: int| 0 <= i && i + needle@.len() <= hay@.len() implies #[trigger] hay@.subrange(i, i + needle@.len()) != needle@ by {
                    assert(i <= at);
                }
            }
            return false;
        }
        at += 1;
    }
}

/// Whether a name matches a query given both already in lower case: the
/// query is empty or the name contains it.
pub fn matches_folded(query_lower: &str, name_lower: &str) -> (r: bool)
    ensures
        r == (query_lower@.len() == 0 || contains_text(name_lower@, query_lower@)),
{
    query_lower.is_empty() || contains_str(name_lower, query_lower)
}

/// Whether a tunnel named `name` is shown for the search `query`: the
/// query is empty or the name contains it, compared in lower case.
pub fn matches_search(query: &str, name: &str) -> (r: bool)
    ensures
        r == search_hit(query@, name@),
{
    if query.is_empty() {
        return true;
    }
    let q = lowercase(query);
    let n = lowercase(name);
    contains_str(n.as_str(), q.as_str())
}

/// The definitions of `defs` shown for the search `query`, in order.
pub fn filter_by_name(defs: &Vec<TunnelDefinition>, query: &str) -> (r: Vec<TunnelDefinition>)
    ensures
        r@ == shown(defs@, query@),
{
    let mut out: Vec<TunnelDefinition> = Vec::new();
    let mut i: usize = 0;
    while i < defs.len()
        invariant
            i <= defs@.len(),
            out@ == shown(defs@.take(i as int), query@),
        decreases defs@.len() - i,
    {
        proof {
            assert(defs@.take(i + 1).drop_last() =~= defs@.take(i as int));
        }
        if matches_search(query, defs[i].params.name.as_str()) {
            out.push(defs[i].clone());
        }
        i += 1;
    }
    proof {
        assert(defs@.take(i as int) =~= defs@);
    }
    out
}

} // verus!
