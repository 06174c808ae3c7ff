//! The ownership index as mathematics.
//!
//! Every owner's kitties form a doubly linked ring whose nodes are entries of
//! one flat map. The key of an entry is the owner together with an optional
//! kitty; the entry under `None` is the owner's sentinel. Following `prev`
//! from the sentinel visits the kitties from the newest to the oldest, and
//! following `next` visits them the other way round.

use vstd::prelude::*;

verus! {

/// An account that can own kitties.
pub type AccountId = u64;

/// The identity of a kitty.
pub type KittyIndex = u32;

/// One node of an owner's ring: the neighbour on the older side (`prev`) and
/// the neighbour on the newer side (`next`). `None` names the sentinel.
#[derive(Clone, Copy, Debug, PartialEq, Eq)]
pub struct KittyLinkedItem {
    pub prev: Option<KittyIndex>,
    pub next: Option<KittyIndex>,
}

/// The key of a node: its owner and, unless it is the sentinel, its kitty.
pub type LinkKey = (AccountId, Option<KittyIndex>);

/// The whole index: every node of every owner.
pub type Links = Map<LinkKey, KittyLinkedItem>;

/// The node that stands for a missing entry.
pub open spec fn unlinked() -> KittyLinkedItem {
    KittyLinkedItem { prev: None, next: None }
}

/// The node stored under a key, or the unlinked node where none is stored.
pub open spec fn link_at(links: Links, account: AccountId, key: Option<KittyIndex>) -> KittyLinkedItem {
    if links.contains_key((account, key)) {
        links[(account, key)]
    } else {
        unlinked()
    }
}

/// The index after `kitty_id` was linked in as the newest kitty of `account`:
/// the sentinel names it as newest, the former newest node (or the sentinel
/// itself, where there was none) gets it as its newer neighbour, and its own
/// node points back at the former newest.
pub open spec fn links_after_append(links: Links, account: AccountId, kitty_id: KittyIndex) -> Links {
    let head = link_at(links, account, None);
    let with_head = links.insert(
        (account, None),
        KittyLinkedItem { prev: Some(kitty_id), next: head.next },
    );
    let prev = link_at(with_head, account, head.prev);
    let with_prev = with_head.insert(
        (account, head.prev),
        KittyLinkedItem { prev: prev.prev, next: Some(kitty_id) },
    );
    with_prev.insert((account, Some(kitty_id)), KittyLinkedItem { prev: head.prev, next: None })
}

/// The index after the node of `kitty_id` was taken out of the ring of
/// `account`: unchanged where there is no such node; else the node is gone
/// and its two neighbours are joined.
pub open spec fn links_after_remove(links: Links, account: AccountId, kitty_id: KittyIndex) -> Links {
    if links.contains_key((account, Some(kitty_id))) {
        let item = links[(account, Some(kitty_id))];
        let without = links.remove((account, Some(kitty_id)));
        let prev = link_at(without, account, item.prev);
        let with_prev = without.insert(
            (account, item.prev),
            KittyLinkedItem { prev: prev.prev, next: item.next },
        );
        let next = link_at(with_prev, account, item.next);
        with_prev.insert((account, item.next), KittyLinkedItem { prev: item.prev, next: next.next })
    } else {
        links
    }
}

/// The first of a list, as a link.
pub open spec fn newest(list: Seq<KittyIndex>) -> Option<KittyIndex> {
    if list.len() > 0 {
        Some(list[0])
    } else {
        None
    }
}

/// The last of a list, as a link.
pub open spec fn oldest(list: Seq<KittyIndex>) -> Option<KittyIndex> {
    if list.len() > 0 {
        Some(list[list.len() - 1])
    } else {
        None
    }
}

/// The link from position `i` of a list to the next older position.
pub open spec fn older(list: Seq<KittyIndex>, i: int) -> Option<KittyIndex> {
    if i + 1 < list.len() {
        Some(list[i + 1])
    } else {
        None
    }
}

/// The link from position `i` of a list to the next newer position.
pub open spec fn newer(list: Seq<KittyIndex>, i: int) -> Option<KittyIndex> {
    if i > 0 {
        Some(list[i - 1])
    } else {
        None
    }
}

/// The node that position `i` of a list asks for.
pub open spec fn node_of(list: Seq<KittyIndex>, i: int) -> KittyLinkedItem {
    KittyLinkedItem { prev: older(list, i), next: newer(list, i) }
}

/// The kitty at position `i` of a list has its node, and the node names the
/// two neighbours of that position.
pub open spec fn threaded_at(
    links: Links,
    account: AccountId,
    list: Seq<KittyIndex>,
    i: int,
) -> bool {
    &&& links.contains_key((account, Some(list[i])))
    &&& links[(account, Some(list[i]))] == node_of(list, i)
}

/// The nodes of `account` thread exactly `list`, newest first: no kitty
/// stands twice, the sentinel names both ends, every kitty of the list has a
/// node that names its two neighbours, and `account` has no other node.
pub open spec fn threads(links: Links, account: AccountId, list: Seq<KittyIndex>) -> bool {
    &&& list.no_duplicates()
    &&& link_at(links, account, None) == (KittyLinkedItem {
        prev: newest(list),
        next: oldest(list),
    })
    &&& forall|i: int| 0 <= i < list.len() ==> #[trigger] threaded_at(links, account, list, i)
    &&& forall|kitty_id: KittyIndex| #[trigger]
        links.contains_key((account, Some(kitty_id))) ==> list.contains(kitty_id)
}

/// `account` owns `kitty_id`: the index holds a node for the pair.
pub open spec fn owns(links: Links, account: AccountId, kitty_id: KittyIndex) -> bool {
    links.contains_key((account, Some(kitty_id)))
}

} // verus!
