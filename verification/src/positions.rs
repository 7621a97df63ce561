//! Grouping of position rows by destination and group.
//!
//! A group does not copy its rows: it holds their positions in the list that
//! was grouped, in rising order, so that whoever holds the list finds them
//! again.

use std::collections::HashMap;
use vstd::prelude::*;

verus! {

broadcast use vstd::std_specs::hash::group_hash_axioms;

/// The integer columns of a position as it is read from a flat buffer.
#[derive(Clone, Copy, Debug, PartialEq, Eq, Structural)]
pub struct PosFbs {
    pub dst: u32,
    pub acc_id: u32,
    pub ins_id: u32,
    pub grp: u16,
    pub grpv: u8,
}

/// The integer columns of a position as it is read from the database.
#[derive(Clone, Copy, Debug, PartialEq, Eq, Structural)]
pub struct Pos {
    pub dst: i32,
    pub acc_id: i32,
    pub ins_id: i32,
    pub grp: i16,
    pub qty: i32,
}

/// The positions of one destination and group, read from flat buffers.
#[derive(Debug)]
pub struct PosFbsAggr {
    pub pos_list: Vec<usize>,
}

/// The positions of one destination and group, read from the database.
#[derive(Debug)]
pub struct PosPostAggr {
    pub pos_list: Vec<usize>,
}

/// Positions grouped by destination, then by group.
pub type PosFbsGroups = HashMap<u32, HashMap<u16, PosFbsAggr>>;

/// Database positions grouped by destination, then by group.
pub type PosPostGroups = HashMap<i32, HashMap<i16, PosPostAggr>>;

/// The destination and group of each flat-buffer position.
pub open spec fn fbs_keys(pos_fbs: Seq<PosFbs>) -> Seq<(int, int)> {
    Seq::new(pos_fbs.len(), |i: int| (pos_fbs[i].dst as int, pos_fbs[i].grp as int))
}

/// The destination and group of each database position.
pub open spec fn pos_keys(query_res: Seq<Pos>) -> Seq<(int, int)> {
    Seq::new(query_res.len(), |i: int| (query_res[i].dst as int, query_res[i].grp as int))
}

/// Where in `keys` the destination `dst` occurs with the group `grp`: the
/// places in rising order.
pub open spec fn places_of(keys: Seq<(int, int)>, dst: int, grp: int) -> Seq<usize>
    decreases keys.len(),
{
    if keys.len() == 0 {
        Seq::empty()
    } else if keys.last() == (dst, grp) {
        places_of(keys.drop_last(), dst, grp).push((keys.len() - 1) as usize)
    } else {
        places_of(keys.drop_last(), dst, grp)
    }
}

/// The group that holds `places`: none where there is no place to hold.
pub open spec fn group_of(places: Seq<usize>) -> Option<Seq<usize>> {
    if places.len() > 0 {
        Some(places)
    } else {
        None
    }
}

/// What the grouped flat-buffer positions hold for `dst` and `grp`.
pub open spec fn fbs_group(
    groups: Map<u32, HashMap<u16, PosFbsAggr>>,
    dst: u32,
    grp: u16,
) -> Option<Seq<usize>> {
    if groups.contains_key(dst) && groups[dst]@.contains_key(grp) {
        Some(groups[dst]@[grp].pos_list@)
    } else {
        None
    }
}

/// What the grouped database positions hold for `dst` and `grp`.
pub open spec fn post_group(
    groups: Map<i32, HashMap<i16, PosPostAggr>>,
    dst: i32,
    grp: i16,
) -> Option<Seq<usize>> {
    if groups.contains_key(dst) && groups[dst]@.contains_key(grp) {
        Some(groups[dst]@[grp].pos_list@)
    } else {
        None
    }
}

/// The places of a destination and group are exactly the places where that
/// pair stands, each once and in rising order.
pub proof fn lemma_places_of(keys: Seq<(int, int)>, dst: int, grp: int)
    requires
        keys.len() <= usize::MAX,
    ensures
        forall|k: int|
            0 <= k < places_of(keys, dst, grp).len() ==> {
                &&& (#[trigger] places_of(keys, dst, grp)[k]) < keys.len()
                &&& keys[places_of(keys, dst, grp)[k] as int] == (dst, grp)
            },
        forall|k: int, l: int|
            0 <= k < l < places_of(keys, dst, grp).len() ==> (#[trigger] places_of(
                keys,
                dst,
                grp,
            )[k]) < (#[trigger] places_of(keys, dst, grp)[l]),
        forall|i: int|
            0 <= i < keys.len() && #[trigger] keys[i] == (dst, grp) ==> places_of(
                keys,
                dst,
                grp,
            ).contains(i as usize),
    decreases keys.len(),
{
    if keys.len() > 0 {
        let front = keys.drop_last();
        lemma_places_of(front, dst, grp);
        let places = places_of(keys, dst, grp);
        let before = places_of(front, dst, grp);
        assert forall|i: int| 0 <= i < keys.len() && #[trigger] keys[i] == (dst, grp) implies places.contains(
            i as usize,
        ) by {
            if i < keys.len() - 1 {
                assert(front[i] == keys[i]);
                assert(before.contains(i as usize));
                let k = choose|k: int| 0 <= k < before.len() && before[k] == i as usize;
                assert(places[k] == i as usize);
            } else {
                assert(places[places.len() - 1] == i as usize);
            }
        }
        assert forall|k: int| 0 <= k < places.len() implies {
            &&& (#[trigger] places[k]) < keys.len()
            &&& keys[places[k] as int] == (dst, grp)
        } by {
            if k < before.len() {
                assert(places[k] == before[k]);
                assert(front[before[k] as int] == keys[before[k] as int]);
            }
        }
        assert forall|k: int, l: int| 0 <= k < l < places.len() implies (#[trigger] places[k]) < (
        #[trigger] places[l]) by {
            assert(places[k] == before[k]);
            if l < before.len() {
                assert(places[l] == before[l]);
            }
        }
    }
}

impl PosFbsAggr {
    /// A group that holds no position yet.
    pub fn new() -> (group: PosFbsAggr)
        ensures
            group.pos_list@ == Seq::<usize>::empty(),
    {
        PosFbsAggr { pos_list: Vec::new() }
    }
}

impl PosPostAggr {
    /// A group that holds no position yet.
    pub fn new() -> (group: PosPostAggr)
        ensures
            group.pos_list@ == Seq::<usize>::empty(),
    {
        PosPostAggr { pos_list: Vec::new() }
    }
}

/// Groups the positions by destination, then by group. Every destination
/// and group that occurs gets a group with the places of its positions in the
/// list, in rising order; nothing else gets one.
pub fn do_pos_fbs_aggregation(pos_fbs: &Vec<PosFbs>) -> (groups: PosFbsGroups)
    ensures
        forall|dst: u32, grp: u16| #[trigger]
            fbs_group(groups@, dst, grp) == group_of(
                places_of(fbs_keys(pos_fbs@), dst as int, grp as int),
            ),
        forall|dst: u32|
            groups@.contains_key(dst) ==> exists|grp: u16| #[trigger]
                fbs_group(groups@, dst, grp) is Some,
{
    let mut map: PosFbsGroups = HashMap::new();
    let mut i: usize = 0;
    while i < pos_fbs.len()
        invariant
            i <= pos_fbs.len(),
            forall|dst: u32, grp: u16| #[trigger]
                fbs_group(map@, dst, grp) == group_of(
                    places_of(fbs_keys(pos_fbs@).take(i as int), dst as int, grp as int),
                ),
            forall|dst: u32|
                map@.contains_key(dst) ==> exists|grp: u16| #[trigger]
                    fbs_group(map@, dst, grp) is Some,
        decreases pos_fbs.len() - i,
    {
        let fbs = pos_fbs[i];
        let ghost before = map@;
        let mut acc = match map.remove(&fbs.dst) {
            Some(acc) => acc,
            None => HashMap::new(),
        };
        let mut acc_grp = match acc.remove(&fbs.grp) {
            Some(acc_grp) => acc_grp,
            None => PosFbsAggr::new(),
        };
        acc_grp.pos_list.push(i);
        acc.insert(fbs.grp, acc_grp);
        map.insert(fbs.dst, acc);
        proof {
            let keys = fbs_keys(pos_fbs@).take(i as int + 1);
            assert(keys.drop_last() == fbs_keys(pos_fbs@).take(i as int));
            assert(keys.last() == (fbs.dst as int, fbs.grp as int));
            assert forall|dst: u32, grp: u16| #[trigger]
                fbs_group(map@, dst, grp) == group_of(places_of(keys, dst as int, grp as int)) by {
                assert(fbs_group(before, dst, grp) == group_of(
                    places_of(keys.drop_last(), dst as int, grp as int),
                ));
            }
            assert(fbs_group(map@, fbs.dst, fbs.grp) is Some);
            assert forall|dst: u32| map@.contains_key(dst) implies exists|grp: u16| #[trigger]
                fbs_group(map@, dst, grp) is Some by {
                if dst != fbs.dst {
                    assert(before.contains_key(dst));
                    let grp = choose|grp: u16| #[trigger] fbs_group(before, dst, grp) is Some;
                    assert(fbs_group(map@, dst, grp) is Some);
                }
            }
        }
        i += 1;
    }
    assert(fbs_keys(pos_fbs@).take(pos_fbs.len() as int) == fbs_keys(pos_fbs@));
    map
}

/// Groups the database positions by destination, then by group. Every
/// destination and group that occurs gets a group with the places of its
/// positions in the list, in rising order; nothing else gets one.
pub fn do_post_aggregation(query_res: &Vec<Pos>) -> (groups: PosPostGroups)
    ensures
        forall|dst: i32, grp: i16| #[trigger]
            post_group(groups@, dst, grp) == group_of(
                places_of(pos_keys(query_res@), dst as int, grp as int),
            ),
        forall|dst: i32|
            groups@.contains_key(dst) ==> exists|grp: i16| #[trigger]
                post_group(groups@, dst, grp) is Some,
{
    let mut map: PosPostGroups = HashMap::new();
    let mut i: usize = 0;
    while i < query_res.len()
        invariant
            i <= query_res.len(),
            forall|dst: i32, grp: i16| #[trigger]
                post_group(map@, dst, grp) == group_of(
                    places_of(pos_keys(query_res@).take(i as int), dst as int, grp as int),
                ),
            forall|dst: i32|
                map@.contains_key(dst) ==> exists|grp: i16| #[trigger]
                    post_group(map@, dst, grp) is Some,
        decreases query_res.len() - i,
    {
        let e = query_res[i];
        let ghost before = map@;
        let mut acc = match map.remove(&e.dst) {
            Some(acc) => acc,
            None => HashMap::new(),
        };
        let mut acc_grp = match acc.remove(&e.grp) {
            Some(acc_grp) => acc_grp,
            None => PosPostAggr::new(),
        };
        acc_grp.pos_list.push(i);
        acc.insert(e.grp, acc_grp);
        map.insert(e.dst, acc);
        proof {
            let keys = pos_keys(query_res@).take(i as int + 1);
            assert(keys.drop_last() == pos_keys(query_res@).take(i as int));
            assert(keys.last() == (e.dst as int, e.grp as int));
            assert forall|dst: i32, grp: i16| #[trigger]
                post_group(map@, dst, grp) == group_of(places_of(keys, dst as int, grp as int)) by {
                assert(post_group(before, dst, grp) == group_of(
                    places_of(keys.drop_last(), dst as int, grp as int),
                ));
            }
            assert(post_group(map@, e.dst, e.grp) is Some);
            assert forall|dst: i32| map@.contains_key(dst) implies exists|grp: i16| #[trigger]
                post_group(map@, dst, grp) is Some by {
                if dst != e.dst {
                    assert(before.contains_key(dst));
                    let grp = choose|grp: i16| #[trigger] post_group(before, dst, grp) is Some;
                    assert(post_group(map@, dst, grp) is Some);
                }
            }
        }
        i += 1;
    }
    assert(pos_keys(query_res@).take(query_res.len() as int) == pos_keys(query_res@));
    map
}

} // verus!
