//! Scene graph index: waypoint path extraction.
//!
//! Once a level scene has loaded, its named nodes are scanned for waypoint
//! names (`Robber<group>Point<suffix>`, see `parse`). Waypoints are grouped by
//! group number, each group ordered by suffix ascending, and each group's
//! translations become one candidate path. Nodes whose names do not match the
//! pattern are not an error: they are simply not waypoints. A scene with no
//! waypoint group at all cannot host a chase; picking a path from it fails
//! with `PathError::NoRobberPath`.

use vstd::prelude::*;

use rand::seq::SliceRandom;

use crate::geom::Vec3Fix;
use crate::parse::extract_group_and_suffix;
use crate::parse::spec_extract;

verus! {

/// A named node of a loaded scene, reduced to what the index reads: its name
/// bytes and its local translation in milliunits.
pub struct SceneNode {
    pub name: Vec<u8>,
    pub translation: Vec3Fix,
}

/// One waypoint group: its group number and its waypoints, ordered by suffix.
pub struct PathGroup {
    pub group: usize,
    pub points: Vec<Vec3Fix>,
}

/// The group/suffix/translation of a waypoint node; `None` for other nodes.
pub open spec fn node_entry(n: SceneNode) -> Option<(usize, usize, Vec3Fix)> {
    match spec_extract(n.name@) {
        None => None,
        Some(gs) => Some((gs.0, gs.1, n.translation)),
    }
}

/// Every waypoint entry of the scene, in node order.
pub open spec fn parsed_entries(nodes: Seq<SceneNode>) -> Seq<(usize, usize, Vec3Fix)> {
    nodes.filter_map(|n: SceneNode| node_entry(n))
}

/// Some entry carries group number `g`.
pub open spec fn entry_present(entries: Seq<(usize, usize, Vec3Fix)>, g: usize) -> bool {
    exists|k: int| 0 <= k < entries.len() && (#[trigger] entries[k]).0 == g
}

/// The (suffix, translation) pairs of group `g`, in entry order.
pub open spec fn entries_of_group(entries: Seq<(usize, usize, Vec3Fix)>, g: usize) -> Seq<
    (usize, Vec3Fix),
>
    decreases entries.len(),
{
    if entries.len() == 0 {
        Seq::empty()
    } else {
        let rest = entries_of_group(entries.drop_last(), g);
        let t = entries.last();
        if t.0 == g {
            rest.push((t.1, t.2))
        } else {
            rest
        }
    }
}

/// Some node of the scene names waypoint group `g`.
pub open spec fn group_present(nodes: Seq<SceneNode>, g: usize) -> bool {
    entry_present(parsed_entries(nodes), g)
}

/// The (suffix, translation) pairs of group `g` of the scene, in node order.
pub open spec fn group_entries(nodes: Seq<SceneNode>, g: usize) -> Seq<(usize, Vec3Fix)> {
    entries_of_group(parsed_entries(nodes), g)
}

/// Suffix numbers non-decreasing.
pub open spec fn sorted_by_suffix(entries: Seq<(usize, Vec3Fix)>) -> bool {
    forall|i: int, j: int|
        0 <= i < j < entries.len() ==> (#[trigger] entries[i]).0 <= (#[trigger] entries[j]).0
}

/// `pts` is the waypoint sequence of group `g`: the group's translations,
/// ordered by suffix ascending.
pub open spec fn path_for_group(nodes: Seq<SceneNode>, g: usize, pts: Seq<Vec3Fix>) -> bool {
    exists|entries: Seq<(usize, Vec3Fix)>|
        #![auto]
        entries.to_multiset() == group_entries(nodes, g).to_multiset() && sorted_by_suffix(entries)
            && pts == entries.map_values(|e: (usize, Vec3Fix)| e.1)
}

/// Strictly ascending group numbers.
pub open spec fn strictly_sorted(ids: Seq<usize>) -> bool {
    forall|i: int, j: int| 0 <= i < j < ids.len() ==> ids[i] < ids[j]
}

/// `p` is the translation of some node of the scene.
pub open spec fn point_from_scene(nodes: Seq<SceneNode>, p: Vec3Fix) -> bool {
    exists|k: int| 0 <= k < nodes.len() && (#[trigger] nodes[k]).translation == p
}

/// A pair in a group's entries comes from a waypoint entry of that group.
proof fn lemma_entries_of_group_member(
    entries: Seq<(usize, usize, Vec3Fix)>,
    g: usize,
    x: (usize, Vec3Fix),
)
    requires
        entries_of_group(entries, g).contains(x),
    ensures
        exists|j: int| 0 <= j < entries.len() && #[trigger] entries[j] == (g, x.0, x.1),
    decreases entries.len(),
{
    if entries.len() > 0 {
        let rest = entries.drop_last();
        let t = entries.last();
        if t.0 == g && x == (t.1, t.2) {
            assert(entries[entries.len() - 1] == (g, x.0, x.1));
        } else {
            assert(entries_of_group(rest, g).contains(x)) by {
                if t.0 == g {
                    let s = entries_of_group(rest, g);
                    let i = choose|i: int|
                        0 <= i < s.push((t.1, t.2)).len() && s.push((t.1, t.2))[i] == x;
                    assert(s[i] == x);
                }
            }
            lemma_entries_of_group_member(rest, g, x);
            let j = choose|j: int| 0 <= j < rest.len() && #[trigger] rest[j] == (g, x.0, x.1);
            assert(entries[j] == (g, x.0, x.1));
        }
    }
}

/// A group that is present has at least one entry.
proof fn lemma_entries_of_group_nonempty(entries: Seq<(usize, usize, Vec3Fix)>, g: usize)
    requires
        entry_present(entries, g),
    ensures
        entries_of_group(entries, g).len() >= 1,
    decreases entries.len(),
{
    if entries.len() > 0 {
        let rest = entries.drop_last();
        let t = entries.last();
        if t.0 != g {
            assert(entry_present(rest, g)) by {
                let k = choose|k: int| 0 <= k < entries.len() && (#[trigger] entries[k]).0 == g;
                assert(rest[k].0 == g);
            }
            lemma_entries_of_group_nonempty(rest, g);
        }
    }
}

/// A waypoint entry comes from some node of the scene.
proof fn lemma_parsed_entries_member(nodes: Seq<SceneNode>, e: (usize, usize, Vec3Fix))
    requires
        parsed_entries(nodes).contains(e),
    ensures
        exists|k: int| 0 <= k < nodes.len() && node_entry(#[trigger] nodes[k]) == Some(e),
    decreases nodes.len(),
{
    if nodes.len() > 0 {
        let rest = nodes.drop_last();
        let t = nodes.last();
        if node_entry(t) == Some(e) {
            assert(node_entry(nodes[nodes.len() - 1]) == Some(e));
        } else {
            assert(parsed_entries(rest).contains(e)) by {
                match node_entry(t) {
                    Some(en) => {
                        let s = parsed_entries(rest);
                        let i = choose|i: int|
                            0 <= i < (s + seq![en]).len() && (s + seq![en])[i] == e;
                        assert(s[i] == e);
                    },
                    None => {},
                }
            }
            lemma_parsed_entries_member(rest, e);
            let k = choose|k: int| 0 <= k < rest.len() && node_entry(#[trigger] rest[k]) == Some(e);
            assert(node_entry(nodes[k]) == Some(e));
        }
    }
}

/// Every point of a group's path is the translation of some scene node, and a
/// present group's path is never empty.
proof fn lemma_path_points_from_scene(nodes: Seq<SceneNode>, g: usize, pts: Seq<Vec3Fix>)
    requires
        path_for_group(nodes, g, pts),
        group_present(nodes, g),
    ensures
        pts.len() >= 1,
        forall|i: int| 0 <= i < pts.len() ==> point_from_scene(nodes, #[trigger] pts[i]),
{
    broadcast use vstd::seq_lib::group_to_multiset_ensures;
    broadcast use vstd::multiset::group_multiset_axioms;

    let entries = choose|entries: Seq<(usize, Vec3Fix)>|
        #![auto]
        entries.to_multiset() == group_entries(nodes, g).to_multiset() && sorted_by_suffix(entries)
            && pts == entries.map_values(|e: (usize, Vec3Fix)| e.1);
    lemma_entries_of_group_nonempty(parsed_entries(nodes), g);
    assert(entries.to_multiset().len() == group_entries(nodes, g).to_multiset().len());
    assert(entries.len() == group_entries(nodes, g).len());
    assert forall|i: int| 0 <= i < pts.len() implies point_from_scene(nodes, #[trigger] pts[i]) by {
        let x = entries[i];
        assert(entries.contains(x));
        assert(entries.to_multiset().count(x) > 0);
        assert(group_entries(nodes, g).contains(x));
        lemma_entries_of_group_member(parsed_entries(nodes), g, x);
        let j = choose|j: int|
            0 <= j < parsed_entries(nodes).len() && #[trigger] parsed_entries(nodes)[j] == (
            g,
            x.0,
            x.1,
            );
        assert(parsed_entries(nodes).contains((g, x.0, x.1)));
        lemma_parsed_entries_member(nodes, (g, x.0, x.1));
        let k = choose|k: int|
            0 <= k < nodes.len() && node_entry(#[trigger] nodes[k]) == Some((g, x.0, x.1));
        assert(nodes[k].translation == x.1);
        assert(pts[i] == x.1);
    }
}

/// Why no path could be handed out.
#[derive(Clone, Copy, Debug, PartialEq, Eq, Structural)]
pub enum PathError {
    /// The scene holds no waypoint group: a fatal authoring error.
    NoRobberPath,
}

/// The waypoint entries of every node, in node order.
fn parse_nodes(nodes: &Vec<SceneNode>) -> (entries: Vec<(usize, usize, Vec3Fix)>)
    ensures
        entries@ == parsed_entries(nodes@),
{
    let mut entries: Vec<(usize, usize, Vec3Fix)> = Vec::new();
    let n = nodes.len();
    let mut i: usize = 0;
    while i < n
        invariant
            n == nodes@.len(),
            0 <= i <= n,
            entries@ == parsed_entries(nodes@.take(i as int)),
        decreases n - i,
    {
        let node = &nodes[i];
        match extract_group_and_suffix(&node.name) {
            Some((g, s)) => {
                entries.push((g, s, node.translation));
            },
            None => {},
        }
        proof {
            assert(nodes@.take(i + 1 as int).drop_last() =~= nodes@.take(i as int));
            assert(nodes@.take(i + 1 as int).last() == nodes@[i as int]);
        }
        i = i + 1;
    }
    proof {
        assert(nodes@.take(n as int) =~= nodes@);
    }
    entries
}

/// Inserting at the found position keeps ids strictly sorted, and adds
/// exactly the new id to what the sequence contains.
proof fn lemma_insert_id(s: Seq<usize>, pos: int, g: usize)
    requires
        strictly_sorted(s),
        0 <= pos <= s.len(),
        forall|q: int| 0 <= q < pos ==> s[q] < g,
        pos < s.len() ==> s[pos] > g,
    ensures
        strictly_sorted(s.insert(pos, g)),
        forall|g2: usize| #[trigger] s.insert(pos, g).contains(g2) <==> (s.contains(g2) || g2 == g),
{
    let t = s.insert(pos, g);
    assert forall|i: int| 0 <= i < t.len() implies t[i] == (if i < pos {
        s[i]
    } else if i == pos {
        g
    } else {
        s[i - 1]
    }) by {
        assert(t == s.subrange(0, pos).push(g) + s.subrange(pos, s.len() as int));
    }
    assert forall|g2: usize| #[trigger] t.contains(g2) implies (s.contains(g2) || g2 == g) by {
        let i = choose|i: int| 0 <= i < t.len() && t[i] == g2;
        if i < pos {
            assert(s[i] == g2);
        } else if i > pos {
            assert(s[i - 1] == g2);
        }
    }
    assert forall|g2: usize| (s.contains(g2) || g2 == g) implies #[trigger] t.contains(g2) by {
        if s.contains(g2) {
            let i = choose|i: int| 0 <= i < s.len() && s[i] == g2;
            if i < pos {
                assert(t[i] == g2);
            } else {
                assert(t[i + 1] == g2);
            }
        } else {
            assert(t[pos] == g2);
        }
    }
}

/// The distinct group numbers among the entries, ascending.
fn collect_ids(entries: &Vec<(usize, usize, Vec3Fix)>) -> (gids: Vec<usize>)
    ensures
        strictly_sorted(gids@),
        forall|g: usize| #[trigger] gids@.contains(g) <==> entry_present(entries@, g),
{
    let mut gids: Vec<usize> = Vec::new();
    let n = entries.len();
    let mut e: usize = 0;
    while e < n
        invariant
            n == entries@.len(),
            0 <= e <= n,
            strictly_sorted(gids@),
            forall|g: usize| #[trigger] gids@.contains(g) <==> entry_present(
                entries@.take(e as int),
                g,
            ),
        decreases n - e,
    {
        let g = entries[e].0;
        let m = gids.len();
        let mut pos: usize = 0;
        while pos < m && gids[pos] < g
            invariant
                0 <= pos <= m,
                m == gids@.len(),
                strictly_sorted(gids@),
                forall|q: int| 0 <= q < pos ==> gids@[q] < g,
            decreases m - pos,
        {
            pos = pos + 1;
        }
        let ghost old_gids = gids@;
        if pos == m {
            proof {
                lemma_insert_id(gids@, pos as int, g);
                assert(gids@.insert(pos as int, g) =~= gids@.push(g));
            }
            gids.push(g);
        } else if gids[pos] > g {
            proof {
                lemma_insert_id(gids@, pos as int, g);
            }
            gids.insert(pos, g);
        }
        proof {
            assert(forall|g2: usize| #[trigger] gids@.contains(g2) <==> (old_gids.contains(g2)
                || g2 == g));
            let t1 = entries@.take(e + 1 as int);
            let t0 = entries@.take(e as int);
            assert forall|g2: usize| entry_present(t1, g2) implies (entry_present(t0, g2) || g2
                == g) by {
                let k = choose|k: int| 0 <= k < t1.len() && (#[trigger] t1[k]).0 == g2;
                if k < e {
                    assert(t0[k].0 == g2);
                }
            }
            assert forall|g2: usize| (entry_present(t0, g2) || g2 == g) implies entry_present(
                t1,
                g2,
            ) by {
                if entry_present(t0, g2) {
                    let k = choose|k: int| 0 <= k < t0.len() && (#[trigger] t0[k]).0 == g2;
                    assert(t1[k].0 == g2);
                } else {
                    assert(t1[e as int].0 == g2);
                }
            }
        }
        e = e + 1;
    }
    proof {
        assert(entries@.take(n as int) =~= entries@);
    }
    gids
}

/// `entries_of_group` grows by one pair on a matching push, else not at all.
proof fn lemma_entries_of_group_push(
    entries: Seq<(usize, usize, Vec3Fix)>,
    x: (usize, usize, Vec3Fix),
    g: usize,
)
    ensures
        entries_of_group(entries.push(x), g) == if x.0 == g {
            entries_of_group(entries, g).push((x.1, x.2))
        } else {
            entries_of_group(entries, g)
        },
{
    assert(entries.push(x).drop_last() =~= entries);
    assert(entries.push(x).last() == x);
}

/// The (suffix, translation) pairs of group `g`, in entry order.
fn collect_group(entries: &Vec<(usize, usize, Vec3Fix)>, g: usize) -> (sub: Vec<(usize, Vec3Fix)>)
    ensures
        sub@ == entries_of_group(entries@, g),
{
    let mut sub: Vec<(usize, Vec3Fix)> = Vec::new();
    let n = entries.len();
    let mut e: usize = 0;
    while e < n
        invariant
            n == entries@.len(),
            0 <= e <= n,
            sub@ == entries_of_group(entries@.take(e as int), g),
        decreases n - e,
    {
        let t = entries[e];
        if t.0 == g {
            sub.push((t.1, t.2));
        }
        proof {
            assert(entries@.take(e + 1 as int) =~= entries@.take(e as int).push(entries@[e as int]));
            lemma_entries_of_group_push(entries@.take(e as int), entries@[e as int], g);
        }
        e = e + 1;
    }
    proof {
        assert(entries@.take(n as int) =~= entries@);
    }
    sub
}

/// Inserting at the found position keeps the pairs sorted by suffix.
proof fn lemma_insert_pair_sorted(s: Seq<(usize, Vec3Fix)>, pos: int, x: (usize, Vec3Fix))
    requires
        sorted_by_suffix(s),
        0 <= pos <= s.len(),
        forall|q: int| 0 <= q < pos ==> (#[trigger] s[q]).0 <= x.0,
        pos < s.len() ==> s[pos].0 > x.0,
    ensures
        sorted_by_suffix(s.insert(pos, x)),
{
    let t = s.insert(pos, x);
    assert forall|i: int| 0 <= i < t.len() implies t[i] == (if i < pos {
        s[i]
    } else if i == pos {
        x
    } else {
        s[i - 1]
    }) by {
        assert(t == s.subrange(0, pos).push(x) + s.subrange(pos, s.len() as int));
    }
}

/// The entries sorted by suffix ascending, stably (equal suffixes keep their
/// encounter order).
fn sort_entries(sub: Vec<(usize, Vec3Fix)>) -> (sorted: Vec<(usize, Vec3Fix)>)
    ensures
        sorted_by_suffix(sorted@),
        sorted@.to_multiset() == sub@.to_multiset(),
{
    broadcast use vstd::seq_lib::group_to_multiset_ensures;
    broadcast use vstd::multiset::group_multiset_axioms;

    let mut sorted: Vec<(usize, Vec3Fix)> = Vec::new();
    let n = sub.len();
    let mut e: usize = 0;
    while e < n
        invariant
            n == sub@.len(),
            0 <= e <= n,
            sorted_by_suffix(sorted@),
            sorted@.to_multiset() == sub@.take(e as int).to_multiset(),
        decreases n - e,
    {
        let x = sub[e];
        let m = sorted.len();
        let mut pos: usize = 0;
        while pos < m && sorted[pos].0 <= x.0
            invariant
                0 <= pos <= m,
                m == sorted@.len(),
                sorted_by_suffix(sorted@),
                forall|q: int| 0 <= q < pos ==> (#[trigger] sorted@[q]).0 <= x.0,
            decreases m - pos,
        {
            pos = pos + 1;
        }
        proof {
            lemma_insert_pair_sorted(sorted@, pos as int, x);
            vstd::seq_lib::to_multiset_insert(sorted@, pos as int, x);
        }
        sorted.insert(pos, x);
        proof {
            broadcast use vstd::multiset::group_multiset_axioms;

            vstd::seq_lib::to_multiset_build(sub@.take(e as int), sub@[e as int]);
            assert(sorted@.to_multiset() == sub@.take(e as int).to_multiset().insert(
                sub@[e as int],
            ));
            assert(sub@.take(e + 1 as int) =~= sub@.take(e as int).push(sub@[e as int]));
        }
        e = e + 1;
    }
    proof {
        assert(sub@.take(n as int) =~= sub@);
    }
    sorted
}

/// The translations of the pairs, in order.
fn project_points(sorted: &Vec<(usize, Vec3Fix)>) -> (pts: Vec<Vec3Fix>)
    ensures
        pts@ == sorted@.map_values(|e: (usize, Vec3Fix)| e.1),
{
    let mut pts: Vec<Vec3Fix> = Vec::new();
    let n = sorted.len();
    let mut e: usize = 0;
    while e < n
        invariant
            n == sorted@.len(),
            0 <= e <= n,
            pts@ =~= sorted@.take(e as int).map_values(|t: (usize, Vec3Fix)| t.1),
        decreases n - e,
    {
        pts.push(sorted[e].1);
        proof {
            assert(pts@ =~= sorted@.take(e + 1 as int).map_values(|t: (usize, Vec3Fix)| t.1));
        }
        e = e + 1;
    }
    proof {
        assert(sorted@.take(n as int) =~= sorted@);
    }
    pts
}

/// Extract every waypoint group of the scene: group numbers ascending, each
/// group's waypoints ordered by suffix ascending.
pub fn get_robber_path_groups(nodes: &Vec<SceneNode>) -> (groups: Vec<PathGroup>)
    ensures
        strictly_sorted(groups@.map_values(|p: PathGroup| p.group)),
        forall|k: int|
            0 <= k < groups@.len() ==> group_present(nodes@, (#[trigger] groups@[k]).group),
        forall|g: usize|
            #[trigger] group_present(nodes@, g) ==> exists|k: int|
                0 <= k < groups@.len() && (#[trigger] groups@[k]).group == g,
        forall|k: int|
            0 <= k < groups@.len() ==> path_for_group(
                nodes@,
                (#[trigger] groups@[k]).group,
                groups@[k].points@,
            ),
{
    let entries = parse_nodes(nodes);
    let gids = collect_ids(&entries);
    let mut groups: Vec<PathGroup> = Vec::new();
    let m = gids.len();
    let mut k: usize = 0;
    while k < m
        invariant
            m == gids@.len(),
            0 <= k <= m,
            entries@ == parsed_entries(nodes@),
            strictly_sorted(gids@),
            forall|g: usize| #[trigger] gids@.contains(g) <==> entry_present(entries@, g),
            groups@.len() == k,
            forall|q: int| 0 <= q < k ==> (#[trigger] groups@[q]).group == gids@[q],
            forall|q: int|
                0 <= q < k ==> path_for_group(
                    nodes@,
                    (#[trigger] groups@[q]).group,
                    groups@[q].points@,
                ),
        decreases m - k,
    {
        let g = gids[k];
        let sub = collect_group(&entries, g);
        let sorted = sort_entries(sub);
        let pts = project_points(&sorted);
        proof {
            assert(sorted@.to_multiset() == group_entries(nodes@, g).to_multiset());
            assert(path_for_group(nodes@, g, pts@));
        }
        groups.push(PathGroup { group: g, points: pts });
        k = k + 1;
    }
    proof {
        assert(groups@.map_values(|p: PathGroup| p.group) =~= gids@);
        assert forall|g: usize| group_present(nodes@, g) implies exists|k: int|
            0 <= k < groups@.len() && (#[trigger] groups@[k]).group == g by {
            assert(gids@.contains(g));
            let i = choose|i: int| 0 <= i < gids@.len() && gids@[i] == g;
            assert(groups@[i].group == g);
        }
        assert forall|k: int| 0 <= k < groups@.len() implies group_present(
            nodes@,
            (#[trigger] groups@[k]).group,
        ) by {
            assert(gids@.contains(gids@[k]));
        }
    }
    groups
}

/// Every waypoint group's path, group numbers ascending.
pub fn get_robber_paths(nodes: &Vec<SceneNode>) -> (paths: Vec<Vec<Vec3Fix>>)
    ensures
        exists|ids: Seq<usize>|
            #![auto]
            strictly_sorted(ids) && ids.len() == paths@.len() && (forall|g: usize|
                ids.contains(g) <==> group_present(nodes@, g)) && (forall|k: int|
                0 <= k < paths@.len() ==> path_for_group(nodes@, ids[k], paths@[k]@)),
        paths@.len() > 0 <==> exists|g: usize| group_present(nodes@, g),
{
    let mut groups = get_robber_path_groups(nodes);
    let ghost gseq = groups@;
    let ghost ids = gseq.map_values(|p: PathGroup| p.group);
    let mut paths: Vec<Vec<Vec3Fix>> = Vec::new();
    while groups.len() > 0
        invariant
            paths@.len() + groups@.len() == gseq.len(),
            groups@ =~= gseq.skip(paths@.len() as int),
            forall|q: int| 0 <= q < paths@.len() ==> (#[trigger] paths@[q])@ == gseq[q].points@,
        decreases groups@.len(),
    {
        proof {
            assert(groups@[0] == gseq[paths@.len() as int]);
            assert(groups@.remove(0) =~= gseq.skip(paths@.len() + 1 as int));
        }
        let pg = groups.remove(0);
        paths.push(pg.points);
    }
    proof {
        assert(paths@.len() == gseq.len());
        assert forall|k: int| 0 <= k < paths@.len() implies path_for_group(
            nodes@,
            ids[k],
            paths@[k]@,
        ) by {
            assert(ids[k] == gseq[k].group);
        }
        assert forall|g: usize| ids.contains(g) implies group_present(nodes@, g) by {
            let i = choose|i: int| 0 <= i < ids.len() && ids[i] == g;
            assert(gseq[i].group == g);
        }
        assert forall|g: usize| group_present(nodes@, g) implies ids.contains(g) by {
            let i = choose|i: int| 0 <= i < gseq.len() && (#[trigger] gseq[i]).group == g;
            assert(ids[i] == g);
        }
        assert forall|i: int, j: int| 0 <= i < j < ids.len() implies ids[i] < ids[j] by {
            assert(gseq.map_values(|p: PathGroup| p.group)[i] == ids[i]);
        }
        if paths@.len() > 0 {
            assert(ids.contains(ids[0]));
        }
        if exists|g: usize| group_present(nodes@, g) {
            let g = choose|g: usize| group_present(nodes@, g);
            assert(ids.contains(g));
        }
    }
    paths
}

/// Relies on rand's `SliceRandom::choose` with `thread_rng`: `Some` exactly
/// when the slice is non-empty, and then a uniformly random element of it.
#[verifier::external_body]
fn choose_random_path(paths: &Vec<Vec<Vec3Fix>>) -> (r: Option<Vec<Vec3Fix>>)
    ensures
        r is Some <==> paths@.len() > 0,
        r is Some ==> exists|i: int| 0 <= i < paths@.len() && r->Some_0@ == (#[trigger] paths@[i])@,
{
    paths.choose(&mut rand::thread_rng()).cloned()
}

/// Pick one waypoint group's path at random, or fail when the scene has no
/// waypoint group at all — missing level content, reported, never papered
/// over with an inert pathless actor.
pub fn get_random_robber_path(nodes: &Vec<SceneNode>) -> (r: Result<Vec<Vec3Fix>, PathError>)
    ensures
        r is Ok <==> exists|g: usize| group_present(nodes@, g),
        r is Err ==> r->Err_0 == PathError::NoRobberPath,
        r is Ok ==> exists|g: usize|
            #![auto]
            group_present(nodes@, g) && path_for_group(nodes@, g, r->Ok_0@),
        r is Ok ==> r->Ok_0@.len() >= 1,
        r is Ok ==> forall|i: int|
            0 <= i < r->Ok_0@.len() ==> point_from_scene(nodes@, #[trigger] r->Ok_0@[i]),
{
    let paths = get_robber_paths(nodes);
    let picked = choose_random_path(&paths);
    match picked {
        Some(p) => {
            proof {
                let ids = choose|ids: Seq<usize>|
                    #![auto]
                    strictly_sorted(ids) && ids.len() == paths@.len() && (forall|g: usize|
                        ids.contains(g) <==> group_present(nodes@, g)) && (forall|k: int|
                        0 <= k < paths@.len() ==> path_for_group(nodes@, ids[k], paths@[k]@));
                let i = choose|i: int| 0 <= i < paths@.len() && p@ == (#[trigger] paths@[i])@;
                assert(ids.contains(ids[i]));
                assert(path_for_group(nodes@, ids[i], p@));
                lemma_path_points_from_scene(nodes@, ids[i], p@);
            }
            Ok(p)
        },
        None => Err(PathError::NoRobberPath),
    }
}

} // verus!
