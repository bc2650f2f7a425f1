//! Prefix autocompletion: the first alias name that starts with the partial
//! input wins; failing that, the first entry of the current directory listing
//! that starts with it; failing that, nothing. First match by enumeration
//! order, not best match.

use vstd::prelude::*;
use crate::aliases::AliasTable;
use crate::text::views;
use crate::text::is_prefix_of;
use crate::text::has_prefix;

verus! {

/// First name in `names` that `partial` is a prefix of, scanning in order.
pub open spec fn first_match(names: Seq<Seq<char>>, partial: Seq<char>) -> Option<Seq<char>>
    decreases names.len(),
{
    if names.len() == 0 {
        Option::None
    } else if is_prefix_of(partial, names[0]) {
        Option::Some(names[0])
    } else {
        first_match(names.drop_first(), partial)
    }
}

/// The completion of `partial`: the first matching alias name, else the first
/// matching directory entry, else nothing.
pub open spec fn spec_complete(
    partial: Seq<char>,
    aliases: Seq<(Seq<char>, Seq<char>)>,
    entries: Seq<Seq<char>>,
) -> Option<Seq<char>> {
    match first_match(aliases.map_values(|p: (Seq<char>, Seq<char>)| p.0), partial) {
        Option::Some(s) => Option::Some(s),
        Option::None => first_match(entries, partial),
    }
}

proof fn lemma_first_match_skip(names: Seq<Seq<char>>, partial: Seq<char>, i: int)
    requires
        0 <= i <= names.len(),
        forall|j: int| 0 <= j < i ==> !is_prefix_of(partial, names[j]),
    ensures
        first_match(names, partial) == first_match(names.skip(i), partial),
    decreases i,
{
    if i > 0 {
        lemma_first_match_skip(names.drop_first(), partial, i - 1);
        assert(names.drop_first().skip(i - 1) =~= names.skip(i));
    } else {
        assert(names.skip(0) =~= names);
    }
}

/// The suggestion for `partial`, given the alias table and the names found in
/// the current directory. A caller that could not read the directory passes
/// an empty listing, so a read failure is just "no match".
pub fn autocomplete(partial: &str, aliases: &AliasTable, dir_entries: &Vec<String>) -> (r: Option<
    String,
>)
    ensures
        match r {
            Option::Some(s) => spec_complete(partial@, aliases@, views(dir_entries@))
                == Option::Some(s@),
            Option::None => spec_complete(partial@, aliases@, views(dir_entries@)) is None,
        },
{
    let ghost names = aliases@.map_values(|p: (Seq<char>, Seq<char>)| p.0);
    let n = aliases.count();
    let mut i: usize = 0;
    while i < n
        invariant
            i <= n,
            n == aliases@.len(),
            names == aliases@.map_values(|p: (Seq<char>, Seq<char>)| p.0),
            forall|j: int| 0 <= j < i ==> !is_prefix_of(partial@, names[j]),
        decreases n - i,
    {
        let name = aliases.name_at(i);
        if has_prefix(name.as_str(), partial) {
            proof {
                lemma_first_match_skip(names, partial@, i as int);
            }
            return Option::Some(name.clone());
        }
        i += 1;
    }
    proof {
        lemma_first_match_skip(names, partial@, n as int);
    }
    let m = dir_entries.len();
    let mut k: usize = 0;
    while k < m
        invariant
            m == dir_entries@.len(),
            k <= m,
            first_match(names, partial@) is None,
            names == aliases@.map_values(|p: (Seq<char>, Seq<char>)| p.0),
            forall|j: int| 0 <= j < k ==> !is_prefix_of(partial@, views(dir_entries@)[j]),
        decreases m - k,
    {
        if has_prefix(dir_entries[k].as_str(), partial) {
            proof {
                lemma_first_match_skip(views(dir_entries@), partial@, k as int);
            }
            return Option::Some(dir_entries[k].clone());
        }
        k += 1;
    }
    proof {
        lemma_first_match_skip(views(dir_entries@), partial@, m as int);
    }
    Option::None
}

} // verus!
