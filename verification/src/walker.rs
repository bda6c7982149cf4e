//! Walking the chain of directories of a container.
//!
//! A directory is a count of two bytes, that many entry records, and,
//! where four more bytes follow inside the container, the offset of the
//! next directory. The walk starts at the first directory and follows
//! these offsets. It ends at an offset of zero, at a missing offset, and
//! at an offset that it has visited before.
//!
//! An entry can point at a directory of its own: the Exif and the GPS
//! directory hang below a directory of the chain, the interoperability
//! directory below the Exif directory. The tags of such a directory come
//! right behind the entry that points at it. It is left out where it does
//! not lie inside the container, and its own next offset is not followed.
//!
//! No directory is read twice: the walk keeps the offsets of all the
//! directories that it has read, of the chain and below it, and passes by
//! every offset that it meets again.

use vstd::prelude::*;
use vstd::set_lib::{set_int_range, lemma_int_range, lemma_len_subset};
use vstd::slice::slice_subrange;
use crate::bytes::{ByteOrder, u16_at, u32_at, read_u16, read_u32};
use crate::container::Container;
use crate::error::MetadataError;
use crate::resolve::resolve;
use crate::tag::{DirectoryEntry, ResolvedTag, TagContext, TagView, ENTRY_LEN, depth_below,
    entry_at, value_of, tag_views, read_entry};

verus! {

/// The number of entries of the directory at `dir`.
pub open spec fn entry_count(region: Seq<u8>, order: ByteOrder, dir: int) -> int {
    u16_at(region, dir, order)
}

/// Where the record of entry `k` of the directory at `dir` starts.
pub open spec fn entry_pos(dir: int, k: int) -> int {
    dir + 2 + ENTRY_LEN * k
}

/// Where the records of the directory at `dir` end.
pub open spec fn directory_end(region: Seq<u8>, order: ByteOrder, dir: int) -> int {
    entry_pos(dir, entry_count(region, order, dir))
}

/// The count and all records of the directory at `dir` lie inside `region`.
pub open spec fn directory_fits(region: Seq<u8>, order: ByteOrder, dir: int) -> bool {
    &&& 0 <= dir
    &&& dir + 2 <= region.len()
    &&& directory_end(region, order, dir) <= region.len()
}

/// The directory that an entry of a directory of the given kind points
/// at, and its kind, if the entry is a pointer, its offset is neither zero
/// nor visited, and the directory lies inside `region`.
pub open spec fn sub_directory(
    region: Seq<u8>,
    order: ByteOrder,
    context: TagContext,
    entry: DirectoryEntry,
    visited: Set<int>,
) -> Option<(TagContext, int)> {
    match entry.pointer(context, order) {
        Some((child, sub)) => if sub != 0 && !visited.contains(sub) && directory_fits(
            region,
            order,
            sub,
        ) {
            Some((child, sub))
        } else {
            None
        },
        None => None,
    }
}

/// The tags of the first `k` entries of the directory at `dir`, and the
/// offsets visited after reading them, where those in `visited` were
/// visited before.
///
/// The tags come in stored order, without the rejected entries. Behind a
/// pointer come the tags of the directory that it points at, unless that
/// directory has been visited.
pub open spec fn walk_upto(
    region: Seq<u8>,
    order: ByteOrder,
    context: TagContext,
    dir: int,
    k: nat,
    visited: Set<int>,
) -> (Seq<TagView>, Set<int>)
    decreases depth_below(context), k,
{
    if k == 0 {
        (Seq::empty(), visited)
    } else {
        let (before, seen) = walk_upto(region, order, context, dir, (k - 1) as nat, visited);
        let entry = entry_at(region, order, entry_pos(dir, k - 1));
        let own = match value_of(entry, order, region) {
            Some(value) => before.push(TagView { context, entry, value }),
            None => before,
        };
        match sub_directory(region, order, context, entry, seen) {
            Some((child, sub)) => {
                let (below, after) = walk_upto(
                    region,
                    order,
                    child,
                    sub,
                    entry_count(region, order, sub) as nat,
                    seen.insert(sub),
                );
                (own + below, after)
            },
            None => (own, seen),
        }
    }
}

/// The tags of the directory at `dir` and of the directories below it,
/// and the offsets visited after reading them. The offset `dir` itself is
/// among those in `visited`.
pub open spec fn directory_walk(
    region: Seq<u8>,
    order: ByteOrder,
    context: TagContext,
    dir: int,
    visited: Set<int>,
) -> (Seq<TagView>, Set<int>) {
    walk_upto(region, order, context, dir, entry_count(region, order, dir) as nat, visited)
}

/// The tags of the directory at `dir` and of the directories below it.
pub open spec fn directory_tags(
    region: Seq<u8>,
    order: ByteOrder,
    context: TagContext,
    dir: int,
    visited: Set<int>,
) -> Seq<TagView> {
    directory_walk(region, order, context, dir, visited).0
}

/// The offset of the directory after the one at `dir`; zero where the
/// four bytes that would hold it do not lie inside `region`.
pub open spec fn next_directory(region: Seq<u8>, order: ByteOrder, dir: int) -> int {
    let end = directory_end(region, order, dir);
    if end + 4 <= region.len() {
        u32_at(region, end, order)
    } else {
        0
    }
}

/// The offsets below `len` that are not in `visited`.
pub open spec fn unvisited(len: nat, visited: Set<int>) -> Set<int> {
    set_int_range(0, len as int).difference(visited)
}

/// Reading a directory forgets no visited offset.
pub proof fn lemma_walk_keeps_visited(
    region: Seq<u8>,
    order: ByteOrder,
    context: TagContext,
    dir: int,
    k: nat,
    visited: Set<int>,
)
    ensures
        visited.subset_of(walk_upto(region, order, context, dir, k, visited).1),
    decreases depth_below(context), k,
{
    if k > 0 {
        let (before, seen) = walk_upto(region, order, context, dir, (k - 1) as nat, visited);
        lemma_walk_keeps_visited(region, order, context, dir, (k - 1) as nat, visited);
        let entry = entry_at(region, order, entry_pos(dir, k - 1));
        match sub_directory(region, order, context, entry, seen) {
            Some((child, sub)) => {
                lemma_walk_keeps_visited(
                    region,
                    order,
                    child,
                    sub,
                    entry_count(region, order, sub) as nat,
                    seen.insert(sub),
                );
            },
            None => {},
        }
    }
}

/// A directory in which no entry is rejected and none is a pointer gives
/// one tag for each entry, in stored order, and visits nothing.
pub proof fn lemma_plain_directory_gives_its_entries(
    region: Seq<u8>,
    order: ByteOrder,
    context: TagContext,
    dir: int,
    k: nat,
    visited: Set<int>,
)
    requires
        forall|i: int|
            0 <= i < k ==> {
                let entry = #[trigger] entry_at(region, order, entry_pos(dir, i));
                value_of(entry, order, region).is_some() && entry.pointer(context, order).is_none()
            },
    ensures
        walk_upto(region, order, context, dir, k, visited).1 == visited,
        walk_upto(region, order, context, dir, k, visited).0.len() == k,
        forall|i: int|
            0 <= i < k ==> {
                let entry = entry_at(region, order, entry_pos(dir, i));
                (#[trigger] walk_upto(region, order, context, dir, k, visited).0[i]) == (TagView {
                    context,
                    entry,
                    value: value_of(entry, order, region).unwrap(),
                })
            },
    decreases k,
{
    if k > 0 {
        lemma_plain_directory_gives_its_entries(
            region,
            order,
            context,
            dir,
            (k - 1) as nat,
            visited,
        );
        let entry = entry_at(region, order, entry_pos(dir, k - 1));
        assert(value_of(entry, order, region).is_some());
        assert(entry.pointer(context, order).is_none());
    }
}

/// Visiting an offset that was not visited, and any others with it,
/// leaves fewer unvisited ones.
pub proof fn lemma_visit_decreases(len: nat, visited: Set<int>, after: Set<int>, dir: int)
    requires
        0 <= dir < len,
        !visited.contains(dir),
        visited.insert(dir).subset_of(after),
    ensures
        unvisited(len, after).len() < unvisited(len, visited).len(),
{
    let before = unvisited(len, visited);
    lemma_int_range(0, len as int);
    lemma_len_subset(before, set_int_range(0, len as int));
    assert(before.contains(dir));
    assert(unvisited(len, after).subset_of(before.remove(dir)));
    lemma_len_subset(unvisited(len, after), before.remove(dir));
}

/// The tags of the chain of directories that starts at `dir`, where the
/// offsets in `visited` have been walked already; `None` where a directory
/// of the chain does not lie inside `region`.
pub open spec fn chain_tags(region: Seq<u8>, order: ByteOrder, dir: int, visited: Set<int>)
    -> Option<Seq<TagView>>
    decreases unvisited(region.len(), visited).len(),
{
    if dir == 0 || visited.contains(dir) {
        Some(Seq::empty())
    } else if !directory_fits(region, order, dir) {
        None
    } else {
        let (here, seen) = directory_walk(region, order, TagContext::Tiff, dir, visited.insert(dir));
        proof {
            lemma_walk_keeps_visited(
                region,
                order,
                TagContext::Tiff,
                dir,
                entry_count(region, order, dir) as nat,
                visited.insert(dir),
            );
            lemma_visit_decreases(region.len(), visited, seen, dir);
        }
        match chain_tags(region, order, next_directory(region, order, dir), seen) {
            Some(rest) => Some(here + rest),
            None => None,
        }
    }
}

/// The container lies inside the byte source.
pub open spec fn lies_inside(data: Seq<u8>, container: Container) -> bool {
    container.base + container.len <= data.len()
}

/// The bytes of a container: as many as it is long, from its base on.
pub open spec fn region_of(data: Seq<u8>, container: Container) -> Seq<u8> {
    data.subrange(container.base as int, container.base + container.len)
}

/// What `walk` finds in `data`: the tags of the chain that starts at the
/// container's first directory, or `None` where the container is malformed.
pub open spec fn walked(data: Seq<u8>, container: Container) -> Option<Seq<TagView>> {
    if !lies_inside(data, container) {
        None
    } else {
        chain_tags(
            region_of(data, container),
            container.order,
            container.first_directory as int,
            Set::empty(),
        )
    }
}

/// The offsets that a list of visited directories holds.
pub open spec fn offsets_of(visited: Seq<u32>) -> Set<int> {
    Set::new(|x: int| exists|i: int| 0 <= i < visited.len() && visited[i] as int == x)
}

/// One more directory in the list is one more offset in the set.
pub proof fn lemma_offsets_push(visited: Seq<u32>, dir: u32)
    ensures
        offsets_of(visited.push(dir)) =~= offsets_of(visited).insert(dir as int),
{
    let longer = visited.push(dir);
    assert forall|x: int| offsets_of(visited).insert(dir as int).contains(x) implies offsets_of(
        longer,
    ).contains(x) by {
        if x == dir as int {
            assert(longer[longer.len() - 1] as int == x);
        } else {
            let i = choose|i: int| 0 <= i < visited.len() && visited[i] as int == x;
            assert(longer[i] as int == x);
        }
    }
    assert forall|x: int| offsets_of(longer).contains(x) implies offsets_of(visited).insert(
        dir as int,
    ).contains(x) by {
        let i = choose|i: int| 0 <= i < longer.len() && longer[i] as int == x;
        if i < visited.len() {
            assert(visited[i] as int == x);
        }
    }
}

/// A directory that has been visited is not read again: a pointer at it
/// leads nowhere.
pub proof fn lemma_visited_directory_is_passed_by(
    region: Seq<u8>,
    order: ByteOrder,
    context: TagContext,
    entry: DirectoryEntry,
    visited: Set<int>,
)
    requires
        entry.pointer(context, order).is_some(),
        visited.contains(entry.pointer(context, order).unwrap().1),
    ensures
        sub_directory(region, order, context, entry, visited).is_none(),
{
}

/// A walk that meets an offset again ends there, and keeps the tags of the
/// directory that held the offset.
pub proof fn lemma_cycle_ends_walk(region: Seq<u8>, order: ByteOrder, dir: int, visited: Set<int>)
    requires
        dir != 0,
        !visited.contains(dir),
        directory_fits(region, order, dir),
        visited.insert(dir).contains(next_directory(region, order, dir)),
    ensures
        chain_tags(region, order, dir, visited) == Some(
            directory_tags(region, order, TagContext::Tiff, dir, visited.insert(dir)),
        ),
{
    let next = next_directory(region, order, dir);
    let (here, seen) = directory_walk(region, order, TagContext::Tiff, dir, visited.insert(dir));
    lemma_walk_keeps_visited(
        region,
        order,
        TagContext::Tiff,
        dir,
        entry_count(region, order, dir) as nat,
        visited.insert(dir),
    );
    assert(seen.contains(next));
    assert(chain_tags(region, order, next, seen) == Some(Seq::<TagView>::empty()));
    assert(here + Seq::<TagView>::empty() =~= here);
}

/// Whether `dir` is among the visited offsets.
fn was_visited(visited: &Vec<u32>, dir: u32) -> (r: bool)
    ensures
        r == offsets_of(visited@).contains(dir as int),
{
    let mut i: usize = 0;
    while i < visited.len()
        invariant
            i <= visited.len(),
            forall|j: int| 0 <= j < i ==> visited@[j] != dir,
        decreases visited.len() - i,
    {
        if visited[i] == dir {
            return true;
        }
        i = i + 1;
    }
    false
}

/// Where the records of the directory at `dir` end, if the directory
/// lies inside `region`.
fn end_of_directory(region: &[u8], order: ByteOrder, dir: u32) -> (r: Option<u64>)
    ensures
        match r {
            Some(end) => directory_fits(region@, order, dir as int) && end == directory_end(
                region@,
                order,
                dir as int,
            ),
            None => !directory_fits(region@, order, dir as int),
        },
{
    let len: u64 = region.len() as u64;
    if dir as u64 + 2 > len {
        return None;
    }
    let n: u16 = read_u16(region, dir as usize, order);
    let end: u64 = dir as u64 + 2 + 12 * (n as u64);
    if end > len {
        None
    } else {
        Some(end)
    }
}

/// The directory that an entry points at, if it is to be read.
fn directory_below(
    region: &[u8],
    order: ByteOrder,
    context: TagContext,
    entry: &DirectoryEntry,
    visited: &Vec<u32>,
) -> (r: Option<(TagContext, u32)>)
    ensures
        match r {
            Some((child, sub)) => sub_directory(
                region@,
                order,
                context,
                *entry,
                offsets_of(visited@),
            ) == Some((child, sub as int)),
            None => sub_directory(region@, order, context, *entry, offsets_of(visited@)).is_none(),
        },
{
    match entry.points_at(context, order) {
        Some((child, sub)) => {
            if sub != 0 && !was_visited(visited, sub) && end_of_directory(
                region,
                order,
                sub,
            ).is_some() {
                Some((child, sub))
            } else {
                None
            }
        },
        None => None,
    }
}

/// Appends the tags of the directory at `dir`, and of the directories
/// below it, to `tags`, and the offsets of the directories below it to
/// `visited`.
fn read_directory(
    region: &[u8],
    order: ByteOrder,
    context: TagContext,
    dir: usize,
    tags: &mut Vec<ResolvedTag>,
    visited: &mut Vec<u32>,
)
    requires
        directory_fits(region@, order, dir as int),
    ensures
        tag_views(final(tags)@) == tag_views(old(tags)@) + directory_walk(
            region@,
            order,
            context,
            dir as int,
            offsets_of(old(visited)@),
        ).0,
        offsets_of(final(visited)@) == directory_walk(
            region@,
            order,
            context,
            dir as int,
            offsets_of(old(visited)@),
        ).1,
    decreases depth_below(context),
{
    let n: usize = read_u16(region, dir, order) as usize;
    let len: usize = region.len();
    let ghost head = tag_views(old(tags)@);
    let ghost start = offsets_of(old(visited)@);
    let mut k: usize = 0;
    assert(tag_views(tags@) =~= head + Seq::<TagView>::empty());
    while k < n
        invariant
            k <= n,
            len == region@.len(),
            n == entry_count(region@, order, dir as int),
            directory_fits(region@, order, dir as int),
            head == tag_views(old(tags)@),
            start == offsets_of(old(visited)@),
            tag_views(tags@) == head + walk_upto(
                region@,
                order,
                context,
                dir as int,
                k as nat,
                start,
            ).0,
            offsets_of(visited@) == walk_upto(
                region@,
                order,
                context,
                dir as int,
                k as nat,
                start,
            ).1,
        decreases n - k,
    {
        let pos: usize = dir + 2 + ENTRY_LEN * k;
        let entry: DirectoryEntry = read_entry(region, order, pos);
        let ghost before = tags@;
        let ghost upto = walk_upto(region@, order, context, dir as int, k as nat, start).0;
        match resolve(&entry, order, region) {
            Some(value) => {
                let tag = ResolvedTag { context, entry, value };
                tags.push(tag);
                assert(tag_views(tags@) =~= tag_views(before).push(tag@));
                assert(tag_views(tags@) =~= head + upto.push(tag@));
            },
            None => {},
        }
        match directory_below(region, order, context, &entry, visited) {
            Some((child, sub)) => {
                proof {
                    lemma_offsets_push(visited@, sub);
                }
                visited.push(sub);
                read_directory(region, order, child, sub as usize, tags, visited);
            },
            None => {},
        }
        proof {
            let next = walk_upto(region@, order, context, dir as int, (k + 1) as nat, start).0;
            assert(tag_views(tags@) =~= head + next);
        }
        k = k + 1;
    }
}

/// Reads every tag of a container, directory by directory.
///
/// The tags come in stored order within a directory, and the directories
/// in the order of the chain. Behind an entry that points at an Exif, GPS
/// or interoperability directory come the tags of that directory, unless
/// it does not lie inside the container. No directory is read twice: an
/// offset that has been visited is passed by. An entry whose value does
/// not lie inside the container is left out. The walk ends where the
/// offset of the next directory is zero, is missing, or has been visited,
/// and then returns what it has read. A container that does not lie
/// inside the byte source, and a directory of the chain that does not lie
/// inside the container, make the whole result `MalformedContainer`.
pub fn walk(data: &[u8], container: &Container) -> (r: Result<Vec<ResolvedTag>, MetadataError>)
    ensures
        match r {
            Ok(tags) => walked(data@, *container) == Some(tag_views(tags@)),
            Err(e) => e == MetadataError::MalformedContainer && walked(data@, *container) is None,
        },
{
    if container.base > data.len() || container.len > data.len() - container.base {
        return Err(MetadataError::MalformedContainer);
    }
    let region: &[u8] = slice_subrange(data, container.base, container.base + container.len);
    let order = container.order;
    let mut tags: Vec<ResolvedTag> = Vec::new();
    let mut visited: Vec<u32> = Vec::new();
    let mut dir: u32 = container.first_directory;
    assert(offsets_of(visited@) =~= Set::<int>::empty());
    assert(tag_views(tags@) =~= Seq::<TagView>::empty());
    while dir != 0 && !was_visited(&visited, dir)
        invariant
            region@ == region_of(data@, *container),
            lies_inside(data@, *container),
            order == container.order,
            walked(data@, *container) == match chain_tags(
                region@,
                order,
                dir as int,
                offsets_of(visited@),
            ) {
                Some(rest) => Some(tag_views(tags@) + rest),
                None => None,
            },
        decreases unvisited(region@.len(), offsets_of(visited@)).len(),
    {
        let len: u64 = region.len() as u64;
        let end: u64 = match end_of_directory(region, order, dir) {
            Some(end) => end,
            None => {
                return Err(MetadataError::MalformedContainer);
            },
        };
        let ghost seen = offsets_of(visited@);
        let ghost head = tag_views(tags@);
        proof {
            lemma_offsets_push(visited@, dir);
        }
        visited.push(dir);
        read_directory(region, order, TagContext::Tiff, dir as usize, &mut tags, &mut visited);
        let next: u32 = if end + 4 <= len {
            read_u32(region, end as usize, order)
        } else {
            0
        };
        proof {
            let (here, after) = directory_walk(
                region@,
                order,
                TagContext::Tiff,
                dir as int,
                seen.insert(dir as int),
            );
            lemma_walk_keeps_visited(
                region@,
                order,
                TagContext::Tiff,
                dir as int,
                entry_count(region@, order, dir as int) as nat,
                seen.insert(dir as int),
            );
            lemma_visit_decreases(region@.len(), seen, after, dir as int);
            match chain_tags(region@, order, next as int, after) {
                Some(rest) => {
                    assert(head + (here + rest) =~= (head + here) + rest);
                },
                None => {},
            }
        }
        dir = next;
    }
    proof {
        assert(tag_views(tags@) + Seq::<TagView>::empty() =~= tag_views(tags@));
    }
    Ok(tags)
}

} // verus!
