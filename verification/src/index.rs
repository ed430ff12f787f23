use vstd::prelude::*;

use crate::account::AccountId;

verus! {

/// `ids` with every occurrence of `id` taken out, the others kept in order.
pub open spec fn without_id(ids: Seq<u64>, id: u64) -> Seq<u64>
    decreases ids.len(),
{
    if ids.len() == 0 {
        ids
    } else if ids.last() == id {
        without_id(ids.drop_last(), id)
    } else {
        without_id(ids.drop_last(), id).push(ids.last())
    }
}

/// The vault list of an owner or a beneficiary, with `vault_id` taken out.
pub fn remove_vault_id(ids: &Vec<u64>, vault_id: u64) -> (r: Vec<u64>)
    ensures
        r@ == without_id(ids@, vault_id),
{
    let n = ids.len();
    let mut next: Vec<u64> = Vec::new();
    let mut i: usize = 0;
    while i < n
        invariant
            n == ids@.len(),
            i <= n,
            next@ == without_id(ids@.take(i as int), vault_id),
        decreases n - i,
    {
        assert(ids@.take(i + 1).drop_last() =~= ids@.take(i as int));
        if ids[i] != vault_id {
            next.push(ids[i]);
        }
        i = i + 1;
    }
    assert(ids@.take(n as int) =~= ids@);
    next
}

/// Taking an id out of a list leaves no occurrence of it and keeps every other id.
pub proof fn lemma_without_id(ids: Seq<u64>, id: u64)
    ensures
        !without_id(ids, id).contains(id),
        forall|x: u64| x != id ==> (without_id(ids, id).contains(x) <==> ids.contains(x)),
    decreases ids.len(),
{
    if ids.len() > 0 {
        let rest = ids.drop_last();
        lemma_without_id(rest, id);
        let w = without_id(rest, id);
        assert forall|x: u64| x != id implies (without_id(ids, id).contains(x) <==> ids.contains(
            x,
        )) by {
            if ids.contains(x) {
                let k = choose|k: int| 0 <= k < ids.len() && ids[k] == x;
                if k < ids.len() - 1 {
                    assert(rest[k] == x);
                    assert(rest.contains(x));
                    assert(w.contains(x));
                    let j = choose|j: int| 0 <= j < w.len() && w[j] == x;
                    if ids.last() != id {
                        assert(w.push(ids.last())[j] == x);
                    }
                } else {
                    assert(ids.last() == x);
                    assert(w.push(ids.last())[w.len() as int] == x);
                }
            }
            if without_id(ids, id).contains(x) {
                if ids.last() == id {
                    assert(w.contains(x));
                } else {
                    let k = choose|k: int|
                        0 <= k < w.push(ids.last()).len() && w.push(ids.last())[k] == x;
                    if k < w.len() {
                        assert(w[k] == x);
                        assert(w.contains(x));
                    } else {
                        assert(ids[ids.len() - 1] == x);
                    }
                }
                if w.contains(x) {
                    assert(rest.contains(x));
                    let k = choose|k: int| 0 <= k < rest.len() && rest[k] == x;
                    assert(ids[k] == x);
                }
            }
        }
        if without_id(ids, id).contains(id) && ids.last() != id {
            let w = without_id(rest, id);
            let k = choose|k: int| 0 <= k < w.push(ids.last()).len() && w.push(ids.last())[k] == id;
            if k < w.len() {
                assert(w[k] == id);
            }
        }
    }
}

/// The list kept under `account` in an index of per-account vault lists; an account
/// with no entry has the empty list.
pub open spec fn list_of(lists: Map<Seq<u8>, Seq<u64>>, account: Seq<u8>) -> Seq<u64> {
    if lists.dom().contains(account) {
        lists[account]
    } else {
        Seq::empty()
    }
}

/// Vault `id` appears in exactly one list of the index, the one under `key`, or in none
/// when `key` is `None`.
pub open spec fn indexed_under(lists: Map<Seq<u8>, Seq<u64>>, id: u64, key: Option<Seq<u8>>) -> bool {
    forall|account: Seq<u8>| #[trigger] list_of(lists, account).contains(id) <==> key == Some(account)
}

/// The index after the key of vault `id` changes from `from` to `to`: unchanged when the
/// key stays the same, else the id is taken out of the list under `from` and added at
/// the end of the list under `to`.
pub open spec fn reindexed(
    lists: Map<Seq<u8>, Seq<u64>>,
    id: u64,
    from: Option<Seq<u8>>,
    to: Option<Seq<u8>>,
) -> Map<Seq<u8>, Seq<u64>> {
    if from == to {
        lists
    } else {
        let removed = match from {
            Some(a) => lists.insert(a, without_id(list_of(lists, a), id)),
            None => lists,
        };
        match to {
            Some(b) => removed.insert(b, list_of(removed, b).push(id)),
            None => removed,
        }
    }
}

/// The list stored under `key`, if there is a key.
pub open spec fn key_list(lists: Map<Seq<u8>, Seq<u64>>, key: Option<Seq<u8>>) -> Option<Seq<u64>> {
    match key {
        Some(a) => Some(list_of(lists, a)),
        None => None,
    }
}

/// The new lists under the old key and the new key of vault `id`, given the lists now
/// stored there: unchanged when the key stays the same, else the id leaves the old list
/// and joins the end of the new one.
pub open spec fn reindexed_pair(
    from_list: Option<Seq<u64>>,
    to_list: Option<Seq<u64>>,
    id: u64,
    same_key: bool,
) -> (Option<Seq<u64>>, Option<Seq<u64>>) {
    if same_key {
        (from_list, to_list)
    } else {
        (
            match from_list {
                Some(f) => Some(without_id(f, id)),
                None => None,
            },
            match to_list {
                Some(t) => Some(t.push(id)),
                None => None,
            },
        )
    }
}

/// The contents of an optional list.
pub open spec fn opt_view(list: Option<Vec<u64>>) -> Option<Seq<u64>> {
    match list {
        Some(v) => Some(v@),
        None => None,
    }
}

/// The key of an index entry, by its bytes.
pub open spec fn key_view(key: Option<AccountId>) -> Option<Seq<u8>> {
    match key {
        Some(a) => Some(a@),
        None => None,
    }
}

/// Whether two index keys are the same.
pub fn same_index_key(a: &Option<AccountId>, b: &Option<AccountId>) -> (r: bool)
    ensures
        r == (key_view(*a) == key_view(*b)),
{
    match (a, b) {
        (Some(x), Some(y)) => x.same(y),
        (None, None) => true,
        _ => false,
    }
}

/// The lists to store under the old and the new key of vault `id` when its key changes;
/// `from_list` and `to_list` are the lists stored there now, and `same_key` says whether
/// the two keys are the same.
pub fn reindexed_lists(from_list: Option<Vec<u64>>, to_list: Option<Vec<u64>>, id: u64, same_key: bool) -> (r: (
    Option<Vec<u64>>,
    Option<Vec<u64>>,
))
    ensures
        (opt_view(r.0), opt_view(r.1)) == reindexed_pair(
            opt_view(from_list),
            opt_view(to_list),
            id,
            same_key,
        ),
{
    if same_key {
        return (from_list, to_list);
    }
    let from_new = match from_list {
        Some(f) => Some(remove_vault_id(&f, id)),
        None => None,
    };
    let to_new = match to_list {
        Some(t) => {
            let mut t = t;
            t.push(id);
            Some(t)
        },
        None => None,
    };
    (from_new, to_new)
}

/// Storing what `reindexed_pair` gives, for the lists now under the two keys, under
/// those keys yields exactly the index `reindexed` describes: the two keys' lists are
/// the pair, and every other list is unchanged.
pub proof fn lemma_reindexed_pair_is_reindex(
    lists: Map<Seq<u8>, Seq<u64>>,
    id: u64,
    from: Option<Seq<u8>>,
    to: Option<Seq<u8>>,
)
    ensures
        ({
            let pair = reindexed_pair(key_list(lists, from), key_list(lists, to), id, from == to);
            let after = reindexed(lists, id, from, to);
            &&& pair.0 == key_list(after, from)
            &&& pair.1 == key_list(after, to)
            &&& forall|c: Seq<u8>|
                Some(c) != from && Some(c) != to ==> #[trigger] list_of(after, c) == list_of(lists, c)
        }),
{
}

/// When an operation changes the key of vault `id` from `from` to `to`, taking the id
/// out of the old key's list and adding it to the new key's list keeps the index exact:
/// the vault then appears under its new key and nowhere else. A new vault, whose id is
/// in no list yet, is the case `from == None`; a cancelled one leaving the index is
/// `to == None`.
pub proof fn lemma_reindex_keeps_index_exact(
    lists: Map<Seq<u8>, Seq<u64>>,
    id: u64,
    from: Option<Seq<u8>>,
    to: Option<Seq<u8>>,
)
    requires
        indexed_under(lists, id, from),
    ensures
        indexed_under(reindexed(lists, id, from, to), id, to),
{
    if from != to {
        let removed = match from {
            Some(a) => lists.insert(a, without_id(list_of(lists, a), id)),
            None => lists,
        };
        assert forall|account: Seq<u8>| !#[trigger] list_of(removed, account).contains(id) by {
            match from {
                Some(a) => {
                    if account == a {
                        lemma_without_id(list_of(lists, a), id);
                    } else {
                        assert(list_of(removed, account) == list_of(lists, account));
                        assert(!list_of(lists, account).contains(id));
                    }
                },
                None => {
                    assert(!list_of(lists, account).contains(id));
                },
            }
        }
        let result = reindexed(lists, id, from, to);
        assert forall|account: Seq<u8>| #[trigger] list_of(result, account).contains(id) <==> to
            == Some(account) by {
            assert(!list_of(removed, account).contains(id));
            match to {
                Some(b) => {
                    if account == b {
                        let l = list_of(removed, b).push(id);
                        assert(l[l.len() - 1] == id);
                        assert(list_of(result, account) == l);
                    } else {
                        assert(list_of(result, account) == list_of(removed, account));
                    }
                },
                None => {
                    assert(list_of(result, account) == list_of(removed, account));
                },
            }
        }
    }
}

} // verus!
