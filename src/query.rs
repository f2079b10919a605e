//! Reading one parameter out of the query of a URL.

use vstd::prelude::*;

verus! {

/// The name/value pairs of the query of the URL written `s`, decoded as
/// `application/x-www-form-urlencoded`; `None` where `s` is no URL.
pub uninterp spec fn url_query(s: Seq<char>) -> Option<Seq<(Seq<char>, Seq<char>)>>;

/// The pairs of strings, seen as pairs of character sequences.
pub open spec fn pairs_view(v: Seq<(String, String)>) -> Seq<(Seq<char>, Seq<char>)> {
    Seq::new(v.len(), |i: int| (v[i].0@, v[i].1@))
}

/// The value of the first pair whose name is `name`; empty where none is.
pub open spec fn first_value(pairs: Seq<(Seq<char>, Seq<char>)>, name: Seq<char>) -> Seq<char>
    decreases pairs.len(),
{
    if pairs.len() == 0 {
        seq![]
    } else if pairs[0].0 == name {
        pairs[0].1
    } else {
        first_value(pairs.drop_first(), name)
    }
}

/// Relies on `url::Url::parse` and `Url::query_pairs`: parses `s` as an
/// absolute URL and lists the decoded pairs of its query, in order.
#[verifier::external_body]
pub(crate) fn query_pairs(s: &str) -> (r: Option<Vec<(String, String)>>)
    ensures
        match r {
            Some(v) => url_query(s@) == Some(pairs_view(v@)),
            None => url_query(s@) is None,
        },
{
    let u = url::Url::parse(s).ok()?;
    Some(u.query_pairs().map(|(k, v)| (k.into_owned(), v.into_owned())).collect())
}

/// Whether `s` is a URL.
pub fn is_url(s: &str) -> (r: bool)
    ensures
        r == (url_query(s@) is Some),
{
    query_pairs(s).is_some()
}

/// The value of the first pair named `name`, or an empty string.
pub fn query_value(pairs: &Vec<(String, String)>, name: &str) -> (r: String)
    ensures
        r@ == first_value(pairs_view(pairs@), name@),
{
    let key = name.to_owned();
    let ghost all = pairs_view(pairs@);
    let mut i: usize = 0;
    assert(all.skip(0) =~= all);
    while i < pairs.len()
        invariant
            i <= pairs@.len(),
            all == pairs_view(pairs@),
            key@ == name@,
            first_value(all, name@) == first_value(all.skip(i as int), name@),
        decreases pairs@.len() - i,
    {
        let ghost rest = all.skip(i as int);
        assert(rest[0] == (pairs@[i as int].0@, pairs@[i as int].1@));
        if pairs[i].0 == key {
            return pairs[i].1.clone();
        }
        assert(rest.drop_first() =~= all.skip(i as int + 1));
        i = i + 1;
    }
    assert(all.skip(i as int).len() == 0);
    String::new()
}

/// The value of the query parameter `name` of the URL written `url`; empty
/// where the parameter is absent or `url` is no URL.
pub fn get_query_string(name: &str, url: &str) -> (r: String)
    ensures
        r@ == match url_query(url@) {
            Some(p) => first_value(p, name@),
            None => seq![],
        },
{
    match query_pairs(url) {
        Some(v) => query_value(&v, name),
        None => String::new(),
    }
}

/// The first pair named `name` decides, whatever pairs of other names stand
/// before it and whatever pairs follow it.
pub proof fn lemma_first_value_found(
    before: Seq<(Seq<char>, Seq<char>)>,
    name: Seq<char>,
    value: Seq<char>,
    after: Seq<(Seq<char>, Seq<char>)>,
)
    requires
        forall|i: int| 0 <= i < before.len() ==> (#[trigger] before[i]).0 != name,
    ensures
        first_value(before + seq![(name, value)] + after, name) == value,
    decreases before.len(),
{
    let all = before + seq![(name, value)] + after;
    if before.len() == 0 {
        assert(all[0] == (name, value));
    } else {
        assert(all[0] == before[0]);
        assert(all.drop_first() =~= before.drop_first() + seq![(name, value)] + after);
        assert forall|i: int| 0 <= i < before.drop_first().len() implies (
        #[trigger] before.drop_first()[i]).0 != name by {
            assert(before.drop_first()[i] == before[i + 1]);
        }
        lemma_first_value_found(before.drop_first(), name, value, after);
    }
}

} // verus!
