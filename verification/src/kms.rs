//! The key-management subcommand: its command model and the computation
//! behind listing keys. The remote calls themselves (describing keys,
//! fetching policies) are collaborators supplied by the caller.

use vstd::prelude::*;

verus! {

/// The key-management subcommand and its arguments.
#[derive(Clone, Debug)]
pub struct App {
    pub command: Commands,
}

/// What the key-management subcommand can do.
#[derive(Clone, Debug)]
pub enum Commands {
    /// Get the policy attached to a key.
    GetPolicy(GetPolicyOptions),
    /// Get the list of existing keys.
    ListKeys,
}

/// Arguments of the get-policy command.
#[derive(Clone, Debug)]
pub struct GetPolicyOptions {
    pub alias: String,
}

/// Every name in the list preceded by the separator `, `.
pub open spec fn joined_tail(names: Seq<Seq<char>>) -> Seq<char>
    decreases names.len(),
{
    if names.len() == 0 {
        Seq::empty()
    } else {
        seq![',', ' '] + names[0] + joined_tail(names.drop_first())
    }
}

/// A list of names joined with `, `: empty for no names, and otherwise the
/// first name followed by each further name preceded by the separator.
pub open spec fn joined_names(names: Seq<Seq<char>>) -> Seq<char> {
    if names.len() == 0 {
        Seq::empty()
    } else {
        names[0] + joined_tail(names.drop_first())
    }
}

/// Joins a key's alias names into one cell of the listing, separated by
/// `, `, as `joined_names` describes.
pub fn join_aliases(names: &Vec<String>) -> (r: String)
    ensures
        r@ == joined_names(names.deep_view()),
{
    let ghost ns = names.deep_view();
    let mut r = String::new();
    let mut i: usize = 0;
    while i < names.len()
        invariant
            0 <= i <= names.len(),
            names.deep_view() == ns,
            i == 0 ==> r@ == Seq::<char>::empty(),
            i > 0 ==> joined_names(ns) == r@ + joined_tail(ns.skip(i as int)),
        decreases names.len() - i,
    {
        proof {
            assert(ns.skip(i as int)[0] == ns[i as int]);
            assert(ns.skip(i as int).drop_first() =~= ns.skip(i + 1));
            assert(ns.skip(0) =~= ns);
        }
        let ghost r_before = r@;
        if i > 0 {
            r.append(", ");
            proof {
                reveal_strlit(", ");
                assert(", "@ =~= seq![',', ' ']);
            }
        }
        r.append(names[i].as_str());
        proof {
            if i == 0 {
                assert(r@ =~= ns[0]);
                assert(joined_names(ns) =~= r@ + joined_tail(ns.skip(1)));
            } else {
                assert(r@ =~= r_before + seq![',', ' '] + ns[i as int]);
                assert(joined_tail(ns.skip(i as int)) == seq![',', ' '] + ns[i as int]
                    + joined_tail(ns.skip(i + 1)));
                assert(joined_names(ns) =~= r@ + joined_tail(ns.skip(i + 1)));
            }
        }
        i = i + 1;
    }
    proof {
        if i > 0 {
            assert(ns.skip(i as int) =~= Seq::<Seq<char>>::empty());
            assert(joined_names(ns) =~= r@);
        }
    }
    r
}

} // verus!
