//! What the link operations mean for the lists they thread.

use vstd::prelude::*;
use crate::links::{
    link_at, links_after_append, links_after_remove, newer, newest, older, oldest, owns,
    threaded_at, threads, AccountId, KittyIndex, KittyLinkedItem, LinkKey, Links,
};

verus! {

/// A list without one kitty: the others keep their order.
pub open spec fn without(list: Seq<KittyIndex>, kitty_id: KittyIndex) -> Seq<KittyIndex> {
    if list.contains(kitty_id) {
        list.remove(list.index_of(kitty_id))
    } else {
        list
    }
}

/// Two lists threaded by the same nodes agree on the first `n` positions of
/// the first one.
proof fn lemma_threads_agree(
    links: Links,
    account: AccountId,
    a: Seq<KittyIndex>,
    b: Seq<KittyIndex>,
    n: int,
)
    requires
        threads(links, account, a),
        threads(links, account, b),
        0 <= n <= a.len(),
    ensures
        n <= b.len(),
        forall|i: int| 0 <= i < n ==> a[i] == b[i],
    decreases n,
{
    if n > 0 {
        lemma_threads_agree(links, account, a, b, n - 1);
        if n == 1 {
            assert(newest(a) == newest(b));
        } else {
            assert(a[n - 2] == b[n - 2]);
            assert(threaded_at(links, account, a, n - 2));
            assert(threaded_at(links, account, b, n - 2));
        }
    }
}

/// The nodes of an owner thread at most one list.
pub proof fn lemma_threads_unique(
    links: Links,
    account: AccountId,
    a: Seq<KittyIndex>,
    b: Seq<KittyIndex>,
)
    requires
        threads(links, account, a),
        threads(links, account, b),
    ensures
        a == b,
{
    lemma_threads_agree(links, account, a, b, a.len() as int);
    lemma_threads_agree(links, account, b, a, b.len() as int);
    assert(a =~= b);
}

/// Appending a kitty that the owner does not hold yet puts it in front of the
/// owner's list.
pub proof fn lemma_append_threads(
    links: Links,
    account: AccountId,
    kitty_id: KittyIndex,
    list: Seq<KittyIndex>,
)
    requires
        threads(links, account, list),
        !list.contains(kitty_id),
    ensures
        threads(links_after_append(links, account, kitty_id), account, seq![kitty_id] + list),
{
    let after = links_after_append(links, account, kitty_id);
    let grown = seq![kitty_id] + list;
    assert forall|i: int, j: int|
        0 <= i < grown.len() && 0 <= j < grown.len() && i != j implies grown[i] != grown[j] by {
        if i > 0 {
            assert(grown[i] == list[i - 1]);
        }
        if j > 0 {
            assert(grown[j] == list[j - 1]);
        }
    }
    if list.len() > 0 {
        assert(threaded_at(links, account, list, 0));
        assert(grown[1] == list[0]);
        assert(grown[grown.len() - 1] == list[list.len() - 1]);
    }
    assert forall|i: int| 0 <= i < grown.len() implies #[trigger] threaded_at(
        after,
        account,
        grown,
        i,
    ) by {
        if i > 0 {
            assert(threaded_at(links, account, list, i - 1));
            assert(grown[i] == list[i - 1]);
            if i + 1 < grown.len() {
                assert(grown[i + 1] == list[i]);
            }
            if i > 1 {
                assert(grown[i - 1] == list[i - 2]);
                assert(list[i - 1] != list[0]);
            }
        }
    }
    assert forall|other: KittyIndex| #[trigger]
        after.contains_key((account, Some(other))) implies grown.contains(other) by {
        if other == kitty_id {
            assert(grown[0] == other);
        } else {
            assert(links.contains_key((account, Some(other))));
            let i = list.index_of(other);
            assert(grown[i + 1] == other);
        }
    }
}

/// What taking out position `at` of a threaded list leaves under the
/// sentinel.
proof fn lemma_remove_sentinel(links: Links, account: AccountId, list: Seq<KittyIndex>, at: int)
    requires
        threads(links, account, list),
        0 <= at < list.len(),
    ensures
        link_at(links_after_remove(links, account, list[at]), account, None) == (KittyLinkedItem {
            prev: if at == 0 {
                older(list, at)
            } else {
                newest(list)
            },
            next: if at == list.len() - 1 {
                newer(list, at)
            } else {
                oldest(list)
            },
        }),
{
    assert(threaded_at(links, account, list, at));
    if at + 1 < list.len() {
        assert(threaded_at(links, account, list, at + 1));
        assert(list[at + 1] != list[at]);
    }
    if at > 0 {
        assert(threaded_at(links, account, list, at - 1));
        assert(list[at - 1] != list[at]);
    }
}

/// What taking out position `at` of a threaded list leaves under the node of
/// another position `i`.
proof fn lemma_remove_nodes(
    links: Links,
    account: AccountId,
    list: Seq<KittyIndex>,
    at: int,
    i: int,
)
    requires
        threads(links, account, list),
        0 <= at < list.len(),
        0 <= i < list.len(),
        i != at,
    ensures
        ({
            let after = links_after_remove(links, account, list[at]);
            &&& after.contains_key((account, Some(list[i])))
            &&& after[(account, Some(list[i]))] == (KittyLinkedItem {
                prev: if i == at - 1 {
                    older(list, at)
                } else {
                    older(list, i)
                },
                next: if i == at + 1 {
                    newer(list, at)
                } else {
                    newer(list, i)
                },
            })
        }),
{
    assert(threaded_at(links, account, list, at));
    assert(threaded_at(links, account, list, i));
    assert(list[i] != list[at]);
    if at + 1 < list.len() {
        assert(threaded_at(links, account, list, at + 1));
        assert(list[at + 1] != list[at]);
        if i != at + 1 {
            assert(list[i] != list[at + 1]);
        }
    }
    if at > 0 {
        assert(threaded_at(links, account, list, at - 1));
        assert(list[at - 1] != list[at]);
        if i != at - 1 {
            assert(list[i] != list[at - 1]);
        }
    }
    if at > 0 && at + 1 < list.len() {
        assert(list[at - 1] != list[at + 1]);
    }
}

/// Taking out a kitty leaves the owner no node but those of the other
/// kitties of the list.
proof fn lemma_remove_domain(
    links: Links,
    account: AccountId,
    list: Seq<KittyIndex>,
    at: int,
    other: KittyIndex,
)
    requires
        threads(links, account, list),
        0 <= at < list.len(),
        links_after_remove(links, account, list[at]).contains_key((account, Some(other))),
    ensures
        other != list[at],
        list.contains(other),
{
    assert(threaded_at(links, account, list, at));
    if at + 1 < list.len() {
        assert(threaded_at(links, account, list, at + 1));
        assert(list[at + 1] != list[at]);
    }
    if at > 0 {
        assert(threaded_at(links, account, list, at - 1));
        assert(list[at - 1] != list[at]);
    }
}

/// Removing a kitty takes it out of the owner's list and leaves the others in
/// their order; a kitty that the owner does not hold changes nothing.
pub proof fn lemma_remove_threads(
    links: Links,
    account: AccountId,
    kitty_id: KittyIndex,
    list: Seq<KittyIndex>,
)
    requires
        threads(links, account, list),
    ensures
        threads(links_after_remove(links, account, kitty_id), account, without(list, kitty_id)),
        !list.contains(kitty_id) ==> links_after_remove(links, account, kitty_id) == links,
{
    if list.contains(kitty_id) {
        let after = links_after_remove(links, account, kitty_id);
        let at = list.index_of(kitty_id);
        let rest = list.remove(at);
        assert(list[at] == kitty_id);
        assert forall|i: int, j: int|
            0 <= i < rest.len() && 0 <= j < rest.len() && i != j implies rest[i] != rest[j] by {
            let a = if i < at { i } else { i + 1 };
            let b = if j < at { j } else { j + 1 };
            assert(rest[i] == list[a] && rest[j] == list[b]);
        }
        lemma_remove_sentinel(links, account, list, at);
        assert forall|i: int| 0 <= i < rest.len() implies #[trigger] threaded_at(
            after,
            account,
            rest,
            i,
        ) by {
            let a = if i < at { i } else { i + 1 };
            lemma_remove_nodes(links, account, list, at, a);
            assert(rest[i] == list[a]);
            if i + 1 < rest.len() {
                assert(rest[i + 1] == list[if i + 1 < at { i + 1 } else { i + 2 }]);
            }
            if i > 0 {
                assert(rest[i - 1] == list[if i - 1 < at { i - 1 } else { i }]);
            }
        }
        assert forall|other: KittyIndex| #[trigger]
            after.contains_key((account, Some(other))) implies rest.contains(other) by {
            lemma_remove_domain(links, account, list, at, other);
            let k = list.index_of(other);
            assert(list[k] == other);
            if k < at {
                assert(rest[k] == other);
            } else {
                assert(rest[k - 1] == other);
            }
        }
        if rest.len() > 0 {
            assert(rest[0] == list[if at == 0 { 1int } else { 0int }]);
            assert(rest[rest.len() - 1] == list[if rest.len() - 1 < at {
                rest.len() - 1
            } else {
                rest.len() as int
            }]);
        }
    } else {
        assert(!links.contains_key((account, Some(kitty_id))));
    }
}

/// Appending to one owner's list touches no node of another owner.
pub proof fn lemma_append_keeps_others(
    links: Links,
    account: AccountId,
    kitty_id: KittyIndex,
    other: AccountId,
)
    requires
        other != account,
    ensures
        forall|key: Option<KittyIndex>|
            #![trigger links_after_append(links, account, kitty_id).contains_key((other, key))]
            #![trigger links_after_append(links, account, kitty_id)[(other, key)]]
            {
                let after = links_after_append(links, account, kitty_id);
                &&& after.contains_key((other, key)) == links.contains_key((other, key))
                &&& after[(other, key)] == links[(other, key)]
            },
        forall|list: Seq<KittyIndex>|
            threads(links, other, list) ==> #[trigger] threads(
                links_after_append(links, account, kitty_id),
                other,
                list,
            ),
{
    let after = links_after_append(links, account, kitty_id);
    assert forall|list: Seq<KittyIndex>| threads(links, other, list) implies #[trigger] threads(
        after,
        other,
        list,
    ) by {
        assert forall|i: int| 0 <= i < list.len() implies #[trigger] threaded_at(
            after,
            other,
            list,
            i,
        ) by {
            assert(threaded_at(links, other, list, i));
        }
    }
}

/// Removing from one owner's list touches no node of another owner.
pub proof fn lemma_remove_keeps_others(
    links: Links,
    account: AccountId,
    kitty_id: KittyIndex,
    other: AccountId,
)
    requires
        other != account,
    ensures
        forall|key: Option<KittyIndex>|
            #![trigger links_after_remove(links, account, kitty_id).contains_key((other, key))]
            #![trigger links_after_remove(links, account, kitty_id)[(other, key)]]
            {
                let after = links_after_remove(links, account, kitty_id);
                &&& after.contains_key((other, key)) == links.contains_key((other, key))
                &&& after[(other, key)] == links[(other, key)]
            },
        forall|list: Seq<KittyIndex>|
            threads(links, other, list) ==> #[trigger] threads(
                links_after_remove(links, account, kitty_id),
                other,
                list,
            ),
{
    let after = links_after_remove(links, account, kitty_id);
    assert forall|list: Seq<KittyIndex>| threads(links, other, list) implies #[trigger] threads(
        after,
        other,
        list,
    ) by {
        assert forall|i: int| 0 <= i < list.len() implies #[trigger] threaded_at(
            after,
            other,
            list,
            i,
        ) by {
            assert(threaded_at(links, other, list, i));
        }
    }
}

/// Appending a kitty that the owner does not hold and removing it at once
/// gives the owner's list back as it was.
pub proof fn lemma_append_then_remove(
    links: Links,
    account: AccountId,
    kitty_id: KittyIndex,
    list: Seq<KittyIndex>,
)
    requires
        threads(links, account, list),
        !list.contains(kitty_id),
    ensures
        threads(
            links_after_remove(links_after_append(links, account, kitty_id), account, kitty_id),
            account,
            list,
        ),
{
    let grown = seq![kitty_id] + list;
    lemma_append_threads(links, account, kitty_id, list);
    lemma_remove_threads(links_after_append(links, account, kitty_id), account, kitty_id, grown);
    assert(grown[0] == kitty_id);
    assert(grown.index_of(kitty_id) == 0);
    assert(grown.remove(0) =~= list);
}

/// The index after `kitty_id` went from `from` to `to`: taken out of the one
/// ring, then linked into the other as its newest.
pub open spec fn links_after_transfer(
    links: Links,
    from: AccountId,
    to: AccountId,
    kitty_id: KittyIndex,
) -> Links {
    links_after_append(links_after_remove(links, from, kitty_id), to, kitty_id)
}

/// A transfer between two owners takes the kitty out of the giver's list and
/// puts it in front of the receiver's.
pub proof fn lemma_transfer_moves(
    links: Links,
    from: AccountId,
    to: AccountId,
    kitty_id: KittyIndex,
    from_list: Seq<KittyIndex>,
    to_list: Seq<KittyIndex>,
)
    requires
        from != to,
        threads(links, from, from_list),
        threads(links, to, to_list),
        from_list.contains(kitty_id),
        !to_list.contains(kitty_id),
    ensures
        threads(
            links_after_transfer(links, from, to, kitty_id),
            from,
            without(from_list, kitty_id),
        ),
        !without(from_list, kitty_id).contains(kitty_id),
        threads(links_after_transfer(links, from, to, kitty_id), to, seq![kitty_id] + to_list),
{
    let taken = links_after_remove(links, from, kitty_id);
    lemma_remove_threads(links, from, kitty_id, from_list);
    lemma_remove_keeps_others(links, from, kitty_id, to);
    assert(threads(taken, to, to_list));
    lemma_append_threads(taken, to, kitty_id, to_list);
    lemma_append_keeps_others(taken, to, kitty_id, from);
    assert(threads(taken, from, without(from_list, kitty_id)));
    lemma_without_drops(from_list, kitty_id);
}

/// A transfer to oneself moves the kitty to the front of one's own list.
pub proof fn lemma_transfer_to_self(
    links: Links,
    account: AccountId,
    kitty_id: KittyIndex,
    list: Seq<KittyIndex>,
)
    requires
        threads(links, account, list),
        list.contains(kitty_id),
    ensures
        threads(
            links_after_transfer(links, account, account, kitty_id),
            account,
            seq![kitty_id] + without(list, kitty_id),
        ),
{
    lemma_remove_threads(links, account, kitty_id, list);
    lemma_without_drops(list, kitty_id);
    lemma_append_threads(
        links_after_remove(links, account, kitty_id),
        account,
        kitty_id,
        without(list, kitty_id),
    );
}

/// A transfer touches no node of an owner that neither gives nor receives.
pub proof fn lemma_transfer_keeps_others(
    links: Links,
    from: AccountId,
    to: AccountId,
    kitty_id: KittyIndex,
    other: AccountId,
    list: Seq<KittyIndex>,
)
    requires
        other != from,
        other != to,
        threads(links, other, list),
    ensures
        threads(links_after_transfer(links, from, to, kitty_id), other, list),
{
    lemma_remove_keeps_others(links, from, kitty_id, other);
    lemma_append_keeps_others(links_after_remove(links, from, kitty_id), to, kitty_id, other);
}

/// In a list where no kitty stands twice, the list without a kitty holds
/// every other kitty of the list and not that one.
pub proof fn lemma_without_drops(list: Seq<KittyIndex>, kitty_id: KittyIndex)
    requires
        list.no_duplicates(),
    ensures
        !without(list, kitty_id).contains(kitty_id),
        forall|other: KittyIndex|
            other != kitty_id ==> (#[trigger] without(list, kitty_id).contains(other)
                <==> list.contains(other)),
        without(list, kitty_id).no_duplicates(),
{
    let rest = without(list, kitty_id);
    if list.contains(kitty_id) {
        let at = list.index_of(kitty_id);
        assert forall|i: int| 0 <= i < rest.len() implies #[trigger] rest[i] == list[if i < at {
            i
        } else {
            i + 1
        }] by {}
        assert forall|other: KittyIndex| other != kitty_id && list.contains(other) implies rest.contains(
            other,
        ) by {
            let k = list.index_of(other);
            assert(list[k] == other);
            if k < at {
                assert(rest[k] == other);
            } else {
                assert(rest[k - 1] == other);
            }
        }
        assert forall|i: int, j: int|
            0 <= i < rest.len() && 0 <= j < rest.len() && i != j implies rest[i] != rest[j] by {
            let a = if i < at { i } else { i + 1 };
            let b = if j < at { j } else { j + 1 };
            assert(rest[i] == list[a] && rest[j] == list[b]);
        }
        if rest.contains(kitty_id) {
            let k = rest.index_of(kitty_id);
            assert(rest[k] == kitty_id);
            assert(list[if k < at { k } else { k + 1 }] == list[at]);
        }
    }
}

/// An owner whose nodes thread a list owns exactly the kitties of that list.
pub proof fn lemma_owns_what_is_listed(
    links: Links,
    account: AccountId,
    list: Seq<KittyIndex>,
    kitty_id: KittyIndex,
)
    requires
        threads(links, account, list),
    ensures
        owns(links, account, kitty_id) <==> list.contains(kitty_id),
{
    if list.contains(kitty_id) {
        let at = list.index_of(kitty_id);
        assert(threaded_at(links, account, list, at));
    }
}

/// Appending to a threaded list gives the owner that one kitty and changes
/// nothing else about who owns what.
pub proof fn lemma_append_owns(
    links: Links,
    account: AccountId,
    kitty_id: KittyIndex,
    list: Seq<KittyIndex>,
)
    requires
        threads(links, account, list),
    ensures
        forall|owner: AccountId, other: KittyIndex| #[trigger]
            owns(links_after_append(links, account, kitty_id), owner, other) <==> owns(
                links,
                owner,
                other,
            ) || (owner == account && other == kitty_id),
{
    if list.len() > 0 {
        assert(threaded_at(links, account, list, 0));
    }
}

/// Removing from a threaded list takes that one kitty from the owner and
/// changes nothing else about who owns what.
pub proof fn lemma_remove_owns(
    links: Links,
    account: AccountId,
    kitty_id: KittyIndex,
    list: Seq<KittyIndex>,
)
    requires
        threads(links, account, list),
    ensures
        forall|owner: AccountId, other: KittyIndex| #[trigger]
            owns(links_after_remove(links, account, kitty_id), owner, other) <==> owns(
                links,
                owner,
                other,
            ) && !(owner == account && other == kitty_id),
{
    if list.contains(kitty_id) {
        let at = list.index_of(kitty_id);
        assert(threaded_at(links, account, list, at));
        if at + 1 < list.len() {
            assert(threaded_at(links, account, list, at + 1));
            assert(list[at + 1] != list[at]);
        }
        if at > 0 {
            assert(threaded_at(links, account, list, at - 1));
            assert(list[at - 1] != list[at]);
        }
    } else {
        lemma_owns_what_is_listed(links, account, list, kitty_id);
    }
}

/// Appending changes at most three entries: the owner's sentinel, the node
/// that the sentinel named as newest, and the node of the kitty.
pub proof fn lemma_append_touches_three(
    links: Links,
    account: AccountId,
    kitty_id: KittyIndex,
    key: LinkKey,
)
    requires
        key != (account, None::<KittyIndex>),
        key != (account, link_at(links, account, None).prev),
        key != (account, Some(kitty_id)),
    ensures
        links_after_append(links, account, kitty_id).contains_key(key) == links.contains_key(key),
        links_after_append(links, account, kitty_id)[key] == links[key],
{
}

/// Removing changes at most three entries: the node of the kitty and the
/// entries of the two neighbours that the node named.
pub proof fn lemma_remove_touches_three(
    links: Links,
    account: AccountId,
    kitty_id: KittyIndex,
    key: LinkKey,
)
    requires
        key != (account, Some(kitty_id)),
        key != (account, link_at(links, account, Some(kitty_id)).prev),
        key != (account, link_at(links, account, Some(kitty_id)).next),
    ensures
        links_after_remove(links, account, kitty_id).contains_key(key) == links.contains_key(key),
        links_after_remove(links, account, kitty_id)[key] == links[key],
{
}

} // verus!
