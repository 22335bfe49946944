//! The allow-list of the tokens under which servers may publish.

use crate::db::query::{filter_take_ends, filter_take_step};
use vstd::prelude::*;

verus! {

/// A line of the list's file names a token unless it is blank or starts with
/// `#`.
pub open spec fn names_token() -> spec_fn(Seq<char>) -> bool {
    |line: Seq<char>| line.len() > 0 && line[0] != '#'
}

/// Builds the allow-list from the lines of its file: the lines that name a
/// token, in the order of the file.
pub fn init(lines: &Vec<String>) -> (store: Vec<String>)
    ensures
        store.deep_view() == lines.deep_view().filter(names_token()),
{
    let ghost all = lines.deep_view();
    let mut store: Vec<String> = Vec::new();
    let mut i: usize = 0;
    proof {
        filter_take_ends(all, names_token());
        assert(store.deep_view() =~= Seq::<Seq<char>>::empty());
    }
    while i < lines.len()
        invariant
            i <= lines.len(),
            all == lines.deep_view(),
            store.deep_view() == all.take(i as int).filter(names_token()),
        decreases lines.len() - i,
    {
        let line = lines[i].as_str();
        let ghost before = store.deep_view();
        proof {
            filter_take_step(all, i as int, names_token());
            assert(all[i as int] == line@);
        }
        if !line.is_empty() && line.get_char(0) != '#' {
            store.push(lines[i].clone());
            proof {
                assert(store.deep_view() =~= before.push(line@));
            }
        }
        i += 1;
    }
    proof {
        filter_take_ends(all, names_token());
    }
    store
}

/// Whether the token is on the allow-list.
pub fn has_token(store: &Vec<String>, token: &str) -> (listed: bool)
    ensures
        listed == store.deep_view().contains(token@),
{
    let wanted = token.to_owned();
    let mut i: usize = 0;
    while i < store.len()
        invariant
            i <= store.len(),
            wanted@ == token@,
            forall|j: int| 0 <= j < i ==> store.deep_view()[j] != token@,
        decreases store.len() - i,
    {
        if store[i] == wanted {
            proof {
                assert(store.deep_view()[i as int] == token@);
            }
            return true;
        }
        i += 1;
    }
    false
}

} // verus!
