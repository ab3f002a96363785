//! File names: the naming convention that yields an artifact key, the
//! optional artifact filter, and the order in which a directory is replayed.

use crate::key::{decimal_u32, parse_decimal_u32, Key};
use vstd::prelude::*;

verus! {

/// Geometry files are named `<instance>.<artifact>.ply`.
pub const NAME_PATTERN: &'static str = "(?<instance>[0-9]+)\\.(?<artifact>.+)\\.ply";

/// What a regular-expression search yields: `None` when the pattern does not
/// compile, `Some(None)` when nothing matches, and otherwise the groups of the
/// match, the whole match first, `None` for a group that took no part.
pub uninterp spec fn regex_captures(pattern: Seq<char>, text: Seq<char>) -> Option<
    Option<Seq<Option<Seq<char>>>>,
>;

/// The text of each capture group.
pub open spec fn groups_view(g: Seq<Option<String>>) -> Seq<Option<Seq<char>>> {
    g.map_values(
        |o: Option<String>|
            match o {
                Some(s) => Some(s@),
                None => None,
            },
    )
}

/// The plain value of a search result.
pub open spec fn search_view(r: Option<Option<Vec<Option<String>>>>) -> Option<
    Option<Seq<Option<Seq<char>>>>,
> {
    match r {
        Some(Some(g)) => Some(Some(groups_view(g@))),
        Some(None) => Some(None),
        None => None,
    }
}

/// Relies on regex::Regex::new, which compiles `pattern` or fails, and on
/// regex::Regex::captures with Captures::iter, which give the groups of the
/// leftmost-first match of `text`, group 0 first.
#[verifier::external_body]
fn search(pattern: &str, text: &str) -> (r: Option<Option<Vec<Option<String>>>>)
    ensures
        search_view(r) == regex_captures(pattern@, text@),
{
    match regex::Regex::new(pattern) {
        Ok(re) => Some(
            re.captures(text).map(
                |c| c.iter().map(|m| m.map(|m| m.as_str().to_string())).collect(),
            ),
        ),
        Err(_) => None,
    }
}

/// The key fields that the groups of a match of the naming convention give:
/// group 1 is the instance, group 2 the artifact.
pub open spec fn key_of_groups(g: Seq<Option<Seq<char>>>) -> Option<(Option<u32>, Seq<char>)> {
    if g.len() >= 3 && g[1] is Some && g[2] is Some {
        Some((decimal_u32(g[1]->0), g[2]->0))
    } else {
        None
    }
}

/// The key fields of a file name, `None` where it breaks the convention.
pub open spec fn key_of_name(name: Seq<char>) -> Option<(Option<u32>, Seq<char>)> {
    match regex_captures(NAME_PATTERN@, name) {
        Some(Some(g)) => key_of_groups(g),
        _ => None,
    }
}

/// Whether `k` holds the fields `f`.
pub open spec fn key_is(k: Key, f: (Option<u32>, Seq<char>)) -> bool {
    k.instance == f.0 && k.artifact@ == f.1
}

/// Builds the key from the groups of a match of the naming convention.
pub fn key_from_captures(groups: &Vec<Option<String>>) -> (r: Option<Key>)
    ensures
        r is Some <==> key_of_groups(groups_view(groups@)) is Some,
        r is Some ==> key_is(r->0, key_of_groups(groups_view(groups@))->0),
{
    if groups.len() < 3 {
        return None;
    }
    match (&groups[1], &groups[2]) {
        (Some(instance), Some(artifact)) => {
            let instance = parse_decimal_u32(instance.as_str());
            Some(Key { instance, artifact: artifact.clone() })
        },
        _ => None,
    }
}

/// The key that a file name gives under the naming convention.
pub fn parse_key(name: &str) -> (r: Option<Key>)
    ensures
        r is Some <==> key_of_name(name@) is Some,
        r is Some ==> key_is(r->0, key_of_name(name@)->0),
{
    match search(NAME_PATTERN, name) {
        Some(Some(groups)) => key_from_captures(&groups),
        _ => None,
    }
}

/// The pattern that admits an artifact when any of `names` matches it.
pub open spec fn alternatives(names: Seq<Seq<char>>) -> Seq<char>
    decreases names.len(),
{
    if names.len() == 0 {
        Seq::empty()
    } else if names.len() == 1 {
        names[0]
    } else {
        alternatives(names.drop_last()) + seq!['|'] + names.last()
    }
}

/// The filter pattern built from a list of alternatives.
pub open spec fn filter_pattern(names: Seq<Seq<char>>) -> Seq<char> {
    seq!['('] + alternatives(names) + seq![')']
}

/// The views of a list of strings.
pub open spec fn views(v: Seq<String>) -> Seq<Seq<char>> {
    v.map_values(|s: String| s@)
}

/// Whether a compiled filter pattern admits `artifact`.
pub open spec fn admits_artifact(pattern: Seq<char>, artifact: Seq<char>) -> bool {
    regex_captures(pattern, artifact) matches Some(Some(_))
}

/// A user-supplied restriction on which artifact streams are ingested. An
/// empty list admits every artifact.
pub struct Filter {
    pattern: String,
}

impl Filter {
    pub closed spec fn pattern(&self) -> Seq<char> {
        self.pattern@
    }

    /// Joins the alternatives into one pattern; `None` when it does not compile.
    pub fn new(names: &Vec<String>) -> (r: Option<Filter>)
        ensures
            r is Some <==> regex_captures(filter_pattern(views(names@)), Seq::empty()) is Some,
            r is Some ==> r->0.pattern() == filter_pattern(views(names@)),
    {
        let mut body = String::new();
        let mut i: usize = 0;
        while i < names.len()
            invariant
                0 <= i <= names.len(),
                body@ == alternatives(views(names@).subrange(0, i as int)),
            decreases names.len() - i,
        {
            let ghost before = views(names@).subrange(0, i as int);
            let ghost after = views(names@).subrange(0, i as int + 1);
            proof {
                assert(after.drop_last() == before);
                assert(after.last() == names@[i as int]@);
            }
            if i > 0 {
                let bar = String::from_str("|");
                proof {
                    reveal_strlit("|");
                }
                body.append(bar.as_str());
            } else {
                assert(before.len() == 0);
            }
            body.append(names[i].as_str());
            i = i + 1;
        }
        proof {
            assert(views(names@).subrange(0, names.len() as int) == views(names@));
        }
        let mut pattern = String::from_str("(");
        let close = String::from_str(")");
        let empty = String::new();
        proof {
            reveal_strlit("(");
            reveal_strlit(")");
        }
        pattern.append(body.as_str());
        pattern.append(close.as_str());
        assert(pattern@ == filter_pattern(views(names@)));
        assert(empty@ == Seq::<char>::empty());
        match search(pattern.as_str(), empty.as_str()) {
            Some(_) => Some(Filter { pattern }),
            None => None,
        }
    }

    /// Whether the filter lets the stream `artifact` through.
    pub fn admits(&self, artifact: &str) -> (r: bool)
        ensures
            r == admits_artifact(self.pattern(), artifact@),
    {
        match search(self.pattern.as_str(), artifact) {
            Some(Some(_)) => true,
            _ => false,
        }
    }
}

/// Whether a directory entry named `name` is replayed under `pattern`.
pub open spec fn replayed(name: Seq<char>, pattern: Seq<char>) -> bool {
    match key_of_name(name) {
        Some(fields) => admits_artifact(pattern, fields.1),
        None => false,
    }
}

impl Filter {
    /// Whether the file `name` follows the naming convention and its stream
    /// passes the filter.
    pub fn admits_name(&self, name: &str) -> (r: bool)
        ensures
            r == replayed(name@, self.pattern()),
    {
        match parse_key(name) {
            Some(key) => self.admits(key.artifact.as_str()),
            None => false,
        }
    }
}

/// The names of `names` that are replayed, in listing order.
pub open spec fn replayed_names(names: Seq<Seq<char>>, pattern: Seq<char>) -> Seq<Seq<char>>
    decreases names.len(),
{
    if names.len() == 0 {
        Seq::empty()
    } else if replayed(names.last(), pattern) {
        replayed_names(names.drop_last(), pattern).push(names.last())
    } else {
        replayed_names(names.drop_last(), pattern)
    }
}

/// Code-point order on text, the order of `String`'s `Ord`.
pub open spec fn text_le(a: Seq<char>, b: Seq<char>) -> bool
    decreases a.len(),
{
    if a.len() == 0 {
        true
    } else if b.len() == 0 {
        false
    } else if a[0] != b[0] {
        (a[0] as int) < (b[0] as int)
    } else {
        text_le(a.drop_first(), b.drop_first())
    }
}

/// Whether `s` is in ascending code-point order.
pub open spec fn ascending(s: Seq<Seq<char>>) -> bool {
    forall|i: int, j: int| 0 <= i < j < s.len() ==> text_le(#[trigger] s[i], #[trigger] s[j])
}

/// Relies on itertools::Itertools::sorted, which sorts with `Ord`; `String`
/// compares by bytes, and UTF-8 keeps code-point order.
#[verifier::external_body]
fn sorted_names(names: Vec<String>) -> (r: Vec<String>)
    ensures
        views(r@).to_multiset() == views(names@).to_multiset(),
        ascending(views(r@)),
{
    itertools::Itertools::sorted(names.into_iter()).collect()
}

/// One pass of playback over a directory listing: the names that follow the
/// naming convention and pass the filter, in ascending order.
pub fn playback_order(names: Vec<String>, filter: &Filter) -> (r: Vec<String>)
    ensures
        views(r@).to_multiset() == replayed_names(views(names@), filter.pattern()).to_multiset(),
        ascending(views(r@)),
{
    let mut kept: Vec<String> = Vec::new();
    let mut i: usize = 0;
    while i < names.len()
        invariant
            0 <= i <= names.len(),
            views(kept@) == replayed_names(views(names@).subrange(0, i as int), filter.pattern()),
        decreases names.len() - i,
    {
        let ghost before = views(names@).subrange(0, i as int);
        let ghost after = views(names@).subrange(0, i as int + 1);
        proof {
            assert(after.drop_last() == before);
            assert(after.last() == names@[i as int]@);
        }
        if filter.admits_name(names[i].as_str()) {
            kept.push(names[i].clone());
            assert(views(kept@) == views(kept@).drop_last().push(names@[i as int]@));
        }
        i = i + 1;
    }
    proof {
        assert(views(names@).subrange(0, names.len() as int) == views(names@));
    }
    sorted_names(kept)
}

} // verus!
