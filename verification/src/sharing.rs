//! The model of the sharing store: what a list of per-owner permissions
//! grants, and how the grants change when the list does.

use vstd::prelude::*;
use crate::models::{CollaboratorAccessView, Grant, SharingPermissionsView};
use crate::traits::{shares_anything, without_collaborator};

verus! {

/// The entry is for the collaborator and names the batch.
pub open spec fn entry_grants(entry: CollaboratorAccessView, collaborator: Seq<u8>, batch_id: Seq<char>) -> bool {
    entry.collaborator == collaborator && entry.batch_ids.contains(batch_id)
}

/// The owner's permissions hold the grant.
pub open spec fn owner_grants(permissions: SharingPermissionsView, grant: Grant) -> bool {
    &&& permissions.owner == grant.owner
    &&& exists|j: int|
        0 <= j < permissions.shared_with.len() && entry_grants(
            #[trigger] permissions.shared_with[j],
            grant.collaborator,
            grant.batch_id,
        )
}

/// Some owner's permissions hold the grant.
pub open spec fn granted(permissions: Seq<SharingPermissionsView>, grant: Grant) -> bool {
    exists|i: int| 0 <= i < permissions.len() && owner_grants(#[trigger] permissions[i], grant)
}

/// The grants that a list of permissions holds.
pub open spec fn grants_of(permissions: Seq<SharingPermissionsView>) -> Set<Grant> {
    Set::new(|g: Grant| granted(permissions, g))
}

/// An owner's entries are in order: there is at least one, each names at
/// least one batch and none twice, and no collaborator has two entries.
pub open spec fn shared_with_wf(entries: Seq<CollaboratorAccessView>) -> bool {
    &&& entries.len() > 0
    &&& forall|j: int|
        0 <= j < entries.len() ==> (#[trigger] entries[j]).batch_ids.len() > 0
            && entries[j].batch_ids.no_duplicates()
    &&& forall|j: int, k: int|
        #![trigger entries[j], entries[k]]
        0 <= j < k < entries.len() ==> entries[j].collaborator != entries[k].collaborator
}

/// The list is in order: no owner occurs twice, no owner is left without a
/// collaborator, and no collaborator without a batch.
pub open spec fn sharing_wf(permissions: Seq<SharingPermissionsView>) -> bool {
    &&& forall|i: int| 0 <= i < permissions.len() ==> shared_with_wf((#[trigger] permissions[i]).shared_with)
    &&& forall|i: int, j: int|
        #![trigger permissions[i], permissions[j]]
        0 <= i < j < permissions.len() ==> permissions[i].owner != permissions[j].owner
}

/// The grant from `owner` to `collaborator` for `batch_id`.
pub open spec fn grant(owner: Seq<u8>, collaborator: Seq<u8>, batch_id: Seq<char>) -> Grant {
    Grant { owner, collaborator, batch_id }
}

/// An entry for one collaborator and one batch.
pub open spec fn single_entry(collaborator: Seq<u8>, batch_id: Seq<char>) -> CollaboratorAccessView {
    CollaboratorAccessView { collaborator, batch_ids: seq![batch_id] }
}

pub proof fn lemma_granted_intro(permissions: Seq<SharingPermissionsView>, i: int, j: int, g: Grant)
    requires
        0 <= i < permissions.len(),
        0 <= j < permissions[i].shared_with.len(),
        permissions[i].owner == g.owner,
        permissions[i].shared_with[j].collaborator == g.collaborator,
        permissions[i].shared_with[j].batch_ids.contains(g.batch_id),
    ensures
        granted(permissions, g),
{
}

pub proof fn lemma_granted_elim(permissions: Seq<SharingPermissionsView>, g: Grant) -> (at: (int, int))
    requires
        granted(permissions, g),
    ensures
        0 <= at.0 < permissions.len(),
        0 <= at.1 < permissions[at.0].shared_with.len(),
        permissions[at.0].owner == g.owner,
        permissions[at.0].shared_with[at.1].collaborator == g.collaborator,
        permissions[at.0].shared_with[at.1].batch_ids.contains(g.batch_id),
{
    let i = choose|i: int| 0 <= i < permissions.len() && owner_grants(#[trigger] permissions[i], g);
    let p = permissions[i];
    let j = choose|j: int|
        0 <= j < p.shared_with.len() && entry_grants(#[trigger] p.shared_with[j], g.collaborator, g.batch_id);
    (i, j)
}

/// An owner without permissions has granted nothing.
pub proof fn lemma_absent_owner(permissions: Seq<SharingPermissionsView>, owner: Seq<u8>)
    requires
        forall|i: int| 0 <= i < permissions.len() ==> (#[trigger] permissions[i]).owner != owner,
    ensures
        !shares_anything(grants_of(permissions), owner),
        forall|g: Grant| g.owner == owner ==> !#[trigger] granted(permissions, g),
{
}

/// An owner with permissions has granted something.
pub proof fn lemma_present_owner(permissions: Seq<SharingPermissionsView>, i: int)
    requires
        sharing_wf(permissions),
        0 <= i < permissions.len(),
    ensures
        shares_anything(grants_of(permissions), permissions[i].owner),
{
    let entry = permissions[i].shared_with[0];
    let id = entry.batch_ids[0];
    let g = grant(permissions[i].owner, entry.collaborator, id);
    lemma_granted_intro(permissions, i, 0, g);
    assert(grants_of(permissions).contains(g));
}

/// In well-formed permissions the place of a grant is the place of its
/// owner and of its collaborator.
pub proof fn lemma_granted_at(permissions: Seq<SharingPermissionsView>, i: int, j: int, g: Grant)
    requires
        sharing_wf(permissions),
        0 <= i < permissions.len(),
        0 <= j < permissions[i].shared_with.len(),
        permissions[i].owner == g.owner,
        permissions[i].shared_with[j].collaborator == g.collaborator,
    ensures
        granted(permissions, g) <==> permissions[i].shared_with[j].batch_ids.contains(g.batch_id),
{
    if permissions[i].shared_with[j].batch_ids.contains(g.batch_id) {
        lemma_granted_intro(permissions, i, j, g);
    }
}

/// The owner has permissions but none for the collaborator: nothing is
/// granted from the one to the other.
pub proof fn lemma_absent_collaborator(
    permissions: Seq<SharingPermissionsView>,
    i: int,
    collaborator: Seq<u8>,
)
    requires
        sharing_wf(permissions),
        0 <= i < permissions.len(),
        forall|j: int|
            0 <= j < permissions[i].shared_with.len() ==> (#[trigger] permissions[i].shared_with[j]).collaborator
                != collaborator,
    ensures
        forall|g: Grant|
            g.owner == permissions[i].owner && g.collaborator == collaborator ==> !#[trigger] granted(
                permissions,
                g,
            ),
{
}

/// A first grant by an owner: the owner's permissions come last.
pub proof fn lemma_share_new_owner(
    permissions: Seq<SharingPermissionsView>,
    owner: Seq<u8>,
    collaborator: Seq<u8>,
    batch_id: Seq<char>,
)
    requires
        sharing_wf(permissions),
        forall|i: int| 0 <= i < permissions.len() ==> (#[trigger] permissions[i]).owner != owner,
    ensures
        ({
            let after = permissions.push(
                SharingPermissionsView { owner, shared_with: seq![single_entry(collaborator, batch_id)] },
            );
            &&& sharing_wf(after)
            &&& grants_of(after) == grants_of(permissions).insert(grant(owner, collaborator, batch_id))
        }),
{
    let entry = single_entry(collaborator, batch_id);
    let fresh = SharingPermissionsView { owner, shared_with: seq![entry] };
    let after = permissions.push(fresh);
    let g = grant(owner, collaborator, batch_id);
    let n = permissions.len() as int;
    assert(entry.batch_ids[0] == batch_id);
    assert forall|x: Grant| grants_of(after).contains(x) == grants_of(permissions).insert(g).contains(x) by {
        if granted(after, x) {
            let at = lemma_granted_elim(after, x);
            if at.0 < n {
                lemma_granted_intro(permissions, at.0, at.1, x);
            }
        }
        if granted(permissions, x) {
            let at = lemma_granted_elim(permissions, x);
            lemma_granted_intro(after, at.0, at.1, x);
        }
        if x == g {
            lemma_granted_intro(after, n, 0, x);
        }
    }
}

/// An owner's first grant to a collaborator: the entry comes last among the
/// owner's entries.
pub proof fn lemma_share_new_collaborator(
    permissions: Seq<SharingPermissionsView>,
    i: int,
    collaborator: Seq<u8>,
    batch_id: Seq<char>,
)
    requires
        sharing_wf(permissions),
        0 <= i < permissions.len(),
        forall|j: int|
            0 <= j < permissions[i].shared_with.len() ==> (#[trigger] permissions[i].shared_with[j]).collaborator
                != collaborator,
    ensures
        ({
            let after = permissions.update(
                i,
                SharingPermissionsView {
                    shared_with: permissions[i].shared_with.push(single_entry(collaborator, batch_id)),
                    ..permissions[i]
                },
            );
            &&& sharing_wf(after)
            &&& grants_of(after) == grants_of(permissions).insert(
                grant(permissions[i].owner, collaborator, batch_id),
            )
        }),
{
    let entry = single_entry(collaborator, batch_id);
    let before_entries = permissions[i].shared_with;
    let entries = before_entries.push(entry);
    let changed = SharingPermissionsView { shared_with: entries, ..permissions[i] };
    let after = permissions.update(i, changed);
    let g = grant(permissions[i].owner, collaborator, batch_id);
    let m = before_entries.len() as int;
    assert(entry.batch_ids[0] == batch_id);
    assert forall|x: Grant| grants_of(after).contains(x) == grants_of(permissions).insert(g).contains(x) by {
        if granted(after, x) {
            let at = lemma_granted_elim(after, x);
            if at.0 != i {
                lemma_granted_intro(permissions, at.0, at.1, x);
            } else if at.1 < m {
                lemma_granted_intro(permissions, i, at.1, x);
            }
        }
        if granted(permissions, x) {
            let at = lemma_granted_elim(permissions, x);
            if at.0 != i {
                lemma_granted_intro(after, at.0, at.1, x);
            } else {
                lemma_granted_intro(after, i, at.1, x);
            }
        }
        if x == g {
            lemma_granted_intro(after, i, m, x);
        }
    }
}

/// A further batch for a collaborator: its identifier comes last in the
/// collaborator's entry.
pub proof fn lemma_share_new_batch(
    permissions: Seq<SharingPermissionsView>,
    i: int,
    j: int,
    batch_id: Seq<char>,
)
    requires
        sharing_wf(permissions),
        0 <= i < permissions.len(),
        0 <= j < permissions[i].shared_with.len(),
        !permissions[i].shared_with[j].batch_ids.contains(batch_id),
    ensures
        ({
            let entry = permissions[i].shared_with[j];
            let after = permissions.update(
                i,
                SharingPermissionsView {
                    shared_with: permissions[i].shared_with.update(
                        j,
                        CollaboratorAccessView { batch_ids: entry.batch_ids.push(batch_id), ..entry },
                    ),
                    ..permissions[i]
                },
            );
            &&& sharing_wf(after)
            &&& grants_of(after) == grants_of(permissions).insert(
                grant(permissions[i].owner, entry.collaborator, batch_id),
            )
        }),
{
    let before_entries = permissions[i].shared_with;
    let entry = before_entries[j];
    let ids = entry.batch_ids.push(batch_id);
    let grown = CollaboratorAccessView { batch_ids: ids, ..entry };
    let entries = before_entries.update(j, grown);
    let changed = SharingPermissionsView { shared_with: entries, ..permissions[i] };
    let after = permissions.update(i, changed);
    let g = grant(permissions[i].owner, entry.collaborator, batch_id);
    let m = entry.batch_ids.len() as int;
    assert(ids[m] == batch_id);
    assert forall|x: Grant| grants_of(after).contains(x) == grants_of(permissions).insert(g).contains(x) by {
        if granted(after, x) {
            let at = lemma_granted_elim(after, x);
            if at.0 != i {
                lemma_granted_intro(permissions, at.0, at.1, x);
            } else if at.1 != j {
                lemma_granted_intro(permissions, i, at.1, x);
            } else {
                let k = choose|k: int| 0 <= k < ids.len() && ids[k] == x.batch_id;
                if k < m {
                    lemma_granted_intro(permissions, i, j, x);
                }
            }
        }
        if granted(permissions, x) {
            let at = lemma_granted_elim(permissions, x);
            if at.0 != i {
                lemma_granted_intro(after, at.0, at.1, x);
            } else if at.1 != j {
                lemma_granted_intro(after, i, at.1, x);
            } else {
                let k = choose|k: int| 0 <= k < entry.batch_ids.len() && entry.batch_ids[k] == x.batch_id;
                assert(ids[k] == x.batch_id);
                lemma_granted_intro(after, i, j, x);
            }
        }
        if x == g {
            lemma_granted_intro(after, i, j, x);
        }
    }
}

/// The permissions once the owner at `i` has dropped the entry at `j`: the
/// owner's permissions go too when that was the last entry.
pub open spec fn drop_entry(permissions: Seq<SharingPermissionsView>, i: int, j: int) -> Seq<SharingPermissionsView> {
    if permissions[i].shared_with.len() == 1 {
        permissions.remove(i)
    } else {
        permissions.update(
            i,
            SharingPermissionsView { shared_with: permissions[i].shared_with.remove(j), ..permissions[i] },
        )
    }
}

/// Dropping a collaborator's entry takes back exactly the grants from the
/// owner to that collaborator.
pub proof fn lemma_drop_entry(permissions: Seq<SharingPermissionsView>, i: int, j: int)
    requires
        sharing_wf(permissions),
        0 <= i < permissions.len(),
        0 <= j < permissions[i].shared_with.len(),
    ensures
        sharing_wf(drop_entry(permissions, i, j)),
        grants_of(drop_entry(permissions, i, j)) == without_collaborator(
            grants_of(permissions),
            permissions[i].owner,
            permissions[i].shared_with[j].collaborator,
        ),
{
    let owner = permissions[i].owner;
    let before_entries = permissions[i].shared_with;
    let collaborator = before_entries[j].collaborator;
    let after = drop_entry(permissions, i, j);
    let target = without_collaborator(grants_of(permissions), owner, collaborator);
    if before_entries.len() == 1 {
        assert forall|x: Grant| grants_of(after).contains(x) == target.contains(x) by {
            if granted(after, x) {
                let at = lemma_granted_elim(after, x);
                let pa = if at.0 < i { at.0 } else { at.0 + 1 };
                lemma_granted_intro(permissions, pa, at.1, x);
            }
            if target.contains(x) {
                let at = lemma_granted_elim(permissions, x);
                if at.0 == i {
                    assert(false);
                } else {
                    let na = if at.0 < i { at.0 } else { at.0 - 1 };
                    lemma_granted_intro(after, na, at.1, x);
                }
            }
        }
    } else {
        assert forall|x: Grant| grants_of(after).contains(x) == target.contains(x) by {
            if granted(after, x) {
                let at = lemma_granted_elim(after, x);
                if at.0 != i {
                    lemma_granted_intro(permissions, at.0, at.1, x);
                } else {
                    let pb = if at.1 < j { at.1 } else { at.1 + 1 };
                    lemma_granted_intro(permissions, i, pb, x);
                }
            }
            if target.contains(x) {
                let at = lemma_granted_elim(permissions, x);
                if at.0 != i {
                    lemma_granted_intro(after, at.0, at.1, x);
                } else {
                    let nb = if at.1 < j { at.1 } else { at.1 - 1 };
                    lemma_granted_intro(after, i, nb, x);
                }
            }
        }
    }
}

/// Where nothing is granted from the owner to the collaborator, taking the
/// collaborator's grants back changes nothing.
pub proof fn lemma_nothing_to_drop(permissions: Seq<SharingPermissionsView>, owner: Seq<u8>, collaborator: Seq<u8>)
    requires
        forall|g: Grant| g.owner == owner && g.collaborator == collaborator ==> !#[trigger] granted(permissions, g),
    ensures
        without_collaborator(grants_of(permissions), owner, collaborator) == grants_of(permissions),
{
}

/// There is an owner at `i` with an entry at `j` that names a batch at `k`.
pub open spec fn names_grant(permissions: Seq<SharingPermissionsView>, i: int, j: int, k: int) -> bool {
    &&& 0 <= i < permissions.len()
    &&& 0 <= j < permissions[i].shared_with.len()
    &&& 0 <= k < permissions[i].shared_with[j].batch_ids.len()
}

/// The grant that the list names at owner `i`, entry `j`, batch `k`.
pub open spec fn grant_at(permissions: Seq<SharingPermissionsView>, i: int, j: int, k: int) -> Grant {
    Grant {
        owner: permissions[i].owner,
        collaborator: permissions[i].shared_with[j].collaborator,
        batch_id: permissions[i].shared_with[j].batch_ids[k],
    }
}

/// Place `(i, j, k)` comes before place `(a, b, c)` when the list is read
/// owner by owner, entry by entry, batch by batch.
pub open spec fn comes_before(i: int, j: int, k: int, a: int, b: int, c: int) -> bool {
    i < a || (i == a && (j < b || (j == b && k < c)))
}

/// The list names the grant at a place before `(a, b, c)`.
pub open spec fn listed_before(permissions: Seq<SharingPermissionsView>, a: int, b: int, c: int, g: Grant) -> bool {
    exists|i: int, j: int, k: int|
        names_grant(permissions, i, j, k) && comes_before(i, j, k, a, b, c) && #[trigger] grant_at(
            permissions,
            i,
            j,
            k,
        ) == g
}

/// The grants that the list names before place `(a, b, c)`.
pub open spec fn grants_before(permissions: Seq<SharingPermissionsView>, a: int, b: int, c: int) -> Set<Grant> {
    Set::new(|g: Grant| listed_before(permissions, a, b, c, g))
}

/// Before the first place nothing is named.
pub proof fn lemma_grants_before_start(permissions: Seq<SharingPermissionsView>)
    ensures
        grants_before(permissions, 0, 0, 0) == Set::<Grant>::empty(),
{
}

/// One place further, the grant at the place is named too.
pub proof fn lemma_grants_before_next(permissions: Seq<SharingPermissionsView>, a: int, b: int, c: int)
    requires
        names_grant(permissions, a, b, c),
    ensures
        grants_before(permissions, a, b, c + 1) == grants_before(permissions, a, b, c).insert(
            grant_at(permissions, a, b, c),
        ),
{
}

/// After the last batch of an entry comes the first batch of the next.
pub proof fn lemma_grants_before_entry_end(permissions: Seq<SharingPermissionsView>, a: int, b: int)
    requires
        0 <= a < permissions.len(),
        0 <= b < permissions[a].shared_with.len(),
    ensures
        grants_before(permissions, a, b, permissions[a].shared_with[b].batch_ids.len() as int) == grants_before(
            permissions,
            a,
            b + 1,
            0,
        ),
{
}

/// After the last entry of an owner comes the first entry of the next.
pub proof fn lemma_grants_before_owner_end(permissions: Seq<SharingPermissionsView>, a: int)
    requires
        0 <= a < permissions.len(),
    ensures
        grants_before(permissions, a, permissions[a].shared_with.len() as int, 0) == grants_before(
            permissions,
            a + 1,
            0,
            0,
        ),
{
}

/// Read to its end, the list has named every grant it holds.
pub proof fn lemma_grants_before_end(permissions: Seq<SharingPermissionsView>)
    ensures
        grants_before(permissions, permissions.len() as int, 0, 0) == grants_of(permissions),
{
    let n = permissions.len() as int;
    assert forall|g: Grant| grants_before(permissions, n, 0, 0).contains(g) == grants_of(permissions).contains(g) by {
        if listed_before(permissions, n, 0, 0, g) {
            let (i, j, k) = choose|i: int, j: int, k: int|
                names_grant(permissions, i, j, k) && comes_before(i, j, k, n, 0, 0) && #[trigger] grant_at(
                    permissions,
                    i,
                    j,
                    k,
                ) == g;
            lemma_granted_intro(permissions, i, j, g);
        }
        if granted(permissions, g) {
            let at = lemma_granted_elim(permissions, g);
            let ids = permissions[at.0].shared_with[at.1].batch_ids;
            let k = choose|k: int| 0 <= k < ids.len() && ids[k] == g.batch_id;
            assert(grant_at(permissions, at.0, at.1, k) == g);
        }
    }
}

} // verus!
