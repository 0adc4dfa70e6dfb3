//! Bookkeeping of chip discovery: which chips and mesh coordinates have
//! been seen, and which neighbouring chips are still to be visited.
use vstd::prelude::*;
use crate::error::PlatformError;
use crate::remote::{EthAddr, NeighbouringChip};

verus! {

/// How a chip is told apart when its board id is not enough: by the
/// interface it was opened through, or by its mesh coordinate.
#[derive(Clone, Copy, Debug, PartialEq, Eq, Structural)]
pub enum InterfaceIdOrCoord {
    Id(u32),
    Coord(EthAddr),
}

/// What identifies a chip during discovery.
#[derive(Clone, Copy, Debug, PartialEq, Eq, Structural)]
pub struct ChipIdent {
    pub board_id: Option<u64>,
    pub place: Option<InterfaceIdOrCoord>,
}

/// Discovery in progress: the chips seen so far, the coordinates visited
/// from the current root, and the neighbours still to visit (the last one
/// is visited first).
#[derive(Debug)]
pub struct DetectState {
    pub seen_chips: Vec<ChipIdent>,
    pub seen_coords: Vec<EthAddr>,
    pub to_check: Vec<NeighbouringChip>,
}

/// Whether `x` occurs in `s`.
pub open spec fn occurs<T>(s: Seq<T>, x: T) -> bool {
    exists|i: int| 0 <= i < s.len() && s[i] == x
}

/// The neighbour visited next and what is left to check: entries whose
/// coordinate was already visited are dropped from the end until one that
/// was not is found.
pub open spec fn next_unvisited(to_check: Seq<NeighbouringChip>, seen: Seq<EthAddr>) -> (Seq<NeighbouringChip>, Option<NeighbouringChip>)
    decreases to_check.len(),
{
    if to_check.len() == 0 {
        (to_check, None)
    } else if occurs(seen, to_check.last().eth_addr) {
        next_unvisited(to_check.drop_last(), seen)
    } else {
        (to_check.drop_last(), Some(to_check.last()))
    }
}

/// The neighbours reported by a chip just visited that are queued: those
/// whose coordinate has not been visited yet.
pub open spec fn queued_neighbours(found: Seq<NeighbouringChip>, seen: Seq<EthAddr>) -> Seq<NeighbouringChip> {
    found.filter(|n: NeighbouringChip| !occurs(seen, n.eth_addr))
}

impl DetectState {
    /// Neither the chips seen nor the coordinates visited hold an entry
    /// twice.
    pub open spec fn wf(&self) -> bool {
        &&& self.seen_chips@.no_duplicates()
        &&& self.seen_coords@.no_duplicates()
    }
}

fn contains_coord(v: &Vec<EthAddr>, x: EthAddr) -> (r: bool)
    ensures
        r == occurs(v@, x),
{
    let mut i: usize = 0;
    while i < v.len()
        invariant
            i <= v@.len(),
            forall|j: int| 0 <= j < i ==> v@[j] != x,
        decreases v@.len() - i,
    {
        if v[i] == x {
            return true;
        }
        i = i + 1;
    }
    false
}

impl DetectState {
    /// Nothing seen yet.
    pub fn new() -> (r: DetectState)
        ensures
            r.wf(),
            r.seen_chips@.len() == 0,
            r.seen_coords@.len() == 0,
            r.to_check@.len() == 0,
    {
        DetectState { seen_chips: Vec::new(), seen_coords: Vec::new(), to_check: Vec::new() }
    }

    /// Record a chip; whether it was not seen before.
    pub fn insert_chip(&mut self, ident: ChipIdent) -> (r: bool)
        requires
            old(self).wf(),
        ensures
            final(self).wf(),
            r == !occurs(old(self).seen_chips@, ident),
            final(self).seen_chips@ == if r {
                old(self).seen_chips@.push(ident)
            } else {
                old(self).seen_chips@
            },
            final(self).seen_coords@ == old(self).seen_coords@,
            final(self).to_check@ == old(self).to_check@,
    {
        let mut i: usize = 0;
        while i < self.seen_chips.len()
            invariant
                i <= self.seen_chips@.len(),
                self.seen_chips@ == old(self).seen_chips@,
                self.seen_coords@ == old(self).seen_coords@,
                self.to_check@ == old(self).to_check@,
                self.wf(),
                forall|j: int| 0 <= j < i ==> self.seen_chips@[j] != ident,
            decreases self.seen_chips@.len() - i,
        {
            if self.seen_chips[i] == ident {
                return false;
            }
            i = i + 1;
        }
        let ghost before = self.seen_chips@;
        self.seen_chips.push(ident);
        proof {
            assert forall|a: int, b: int| 0 <= a < b < self.seen_chips@.len() implies self.seen_chips@[a]
                != self.seen_chips@[b] by {
                if b == before.len() {
                    assert(self.seen_chips@[a] == before[a]);
                }
            }
        }
        true
    }

    /// Start the search from a root chip with the neighbours it reports;
    /// no coordinate has been visited from it yet.
    pub fn begin_root(&mut self, neighbours: Vec<NeighbouringChip>)
        requires
            old(self).wf(),
        ensures
            final(self).wf(),
            final(self).seen_chips@ == old(self).seen_chips@,
            final(self).seen_coords@.len() == 0,
            final(self).to_check@ == neighbours@,
    {
        self.seen_coords = Vec::new();
        self.to_check = neighbours;
    }

    /// The next neighbour to visit, if any; its coordinate is marked
    /// visited, so no coordinate is visited twice from one root.
    pub fn next_candidate(&mut self) -> (r: Option<NeighbouringChip>)
        requires
            old(self).wf(),
        ensures
            final(self).wf(),
            (final(self).to_check@, r) == next_unvisited(old(self).to_check@, old(self).seen_coords@),
            final(self).seen_chips@ == old(self).seen_chips@,
            match r {
                Some(n) => !occurs(old(self).seen_coords@, n.eth_addr) && final(self).seen_coords@
                    == old(self).seen_coords@.push(n.eth_addr),
                None => final(self).seen_coords@ == old(self).seen_coords@,
            },
    {
        loop
            invariant
                next_unvisited(self.to_check@, self.seen_coords@) == next_unvisited(
                    old(self).to_check@,
                    old(self).seen_coords@,
                ),
                self.seen_coords@ == old(self).seen_coords@,
                self.seen_chips@ == old(self).seen_chips@,
                self.wf(),
            decreases self.to_check@.len(),
        {
            match self.to_check.pop() {
                None => {
                    return None;
                },
                Some(n) => {
                    if !contains_coord(&self.seen_coords, n.eth_addr) {
                        let ghost before = self.seen_coords@;
                        self.seen_coords.push(n.eth_addr);
                        proof {
                            assert forall|a: int, b: int| 0 <= a < b < self.seen_coords@.len() implies self.seen_coords@[a]
                                != self.seen_coords@[b] by {
                                if b == before.len() {
                                    assert(self.seen_coords@[a] == before[a]);
                                }
                            }
                        }
                        return Some(n);
                    }
                },
            }
        }
    }

    /// Queue the neighbours reported by a chip just visited, in order,
    /// leaving out those whose coordinate was already visited.
    pub fn push_neighbours(&mut self, found: Vec<NeighbouringChip>)
        requires
            old(self).wf(),
        ensures
            final(self).wf(),
            final(self).to_check@ == old(self).to_check@ + queued_neighbours(found@, old(self).seen_coords@),
            final(self).seen_coords@ == old(self).seen_coords@,
            final(self).seen_chips@ == old(self).seen_chips@,
    {
        let ghost seen = self.seen_coords@;
        let ghost start = self.to_check@;
        let mut i: usize = 0;
        while i < found.len()
            invariant
                i <= found@.len(),
                self.seen_coords@ == seen,
                self.seen_chips@ == old(self).seen_chips@,
                start == old(self).to_check@,
                self.to_check@ == start + queued_neighbours(found@.subrange(0, i as int), seen),
            decreases found@.len() - i,
        {
            let n = found[i];
            proof {
                let pre = found@.subrange(0, i as int);
                assert(found@.subrange(0, i + 1) =~= pre.push(n));
                pre.lemma_filter_push(n, |m: NeighbouringChip| !occurs(seen, m.eth_addr));
            }
            if !contains_coord(&self.seen_coords, n.eth_addr) {
                self.to_check.push(n);
                assert(self.to_check@ =~= start + queued_neighbours(found@.subrange(0, i + 1), seen));
            } else {
                assert(self.to_check@ =~= start + queued_neighbours(found@.subrange(0, i + 1), seen));
            }
            i = i + 1;
        }
        assert(found@.subrange(0, i as int) =~= found@);
    }
}

/// A number for each coordinate, different for different coordinates.
pub open spec fn coord_code(a: EthAddr) -> int {
    ((a.shelf_x as int * 0x100 + a.shelf_y as int) * 0x100 + a.rack_x as int) * 0x100 + a.rack_y as int
}

/// A list of coordinates without repeats has at most one entry per
/// coordinate there is.
proof fn lemma_coords_bounded(s: Seq<EthAddr>)
    requires
        s.no_duplicates(),
    ensures
        s.len() <= 0x1_0000_0000,
{
    let codes = s.map_values(|a: EthAddr| coord_code(a));
    assert forall|i: int, j: int| 0 <= i < j < codes.len() implies codes[i] != codes[j] by {
        let a = s[i];
        let b = s[j];
        assert(a != b);
        if coord_code(a) == coord_code(b) {
            assert(a.rack_y == b.rack_y);
            assert(a.rack_x == b.rack_x);
            assert(a.shelf_y == b.shelf_y);
            assert(a.shelf_x == b.shelf_x);
        }
    }
    codes.unique_seq_to_set();
    vstd::set_lib::lemma_int_range(0, 0x1_0000_0000);
    assert forall|x: int| codes.to_set().contains(x) implies vstd::set_lib::set_int_range(0, 0x1_0000_0000).contains(x) by {
        let i = choose|i: int| 0 <= i < codes.len() && codes[i] == x;
        assert(codes[i] == coord_code(s[i]));
    }
    vstd::set_lib::lemma_len_subset(codes.to_set(), vstd::set_lib::set_int_range(0, 0x1_0000_0000));
}

proof fn lemma_occurs_push<T>(s: Seq<T>, y: T, x: T)
    ensures
        occurs(s.push(y), x) <==> (occurs(s, x) || x == y),
{
    if occurs(s, x) {
        let j = choose|j: int| 0 <= j < s.len() && s[j] == x;
        assert(s.push(y)[j] == x);
    }
    if x == y {
        assert(s.push(y)[s.len() as int] == x);
    }
    if occurs(s.push(y), x) {
        let j = choose|j: int| 0 <= j < s.len() + 1 && s.push(y)[j] == x;
        if j < s.len() {
            assert(s[j] == x);
        }
    }
}

/// What discovery needs of a chip.  The chip's identity, the neighbours
/// its links report and the chip opened through it at a coordinate are
/// taken to stay the same while discovery runs: each is named by a spec
/// function, and a call that succeeds returns it.
pub trait DiscoveredChip: Sized {
    /// The identity by which duplicates are found.
    spec fn identity(&self) -> ChipIdent;
    /// The chips at the other end of this chip's trained ethernet links.
    spec fn links(&self) -> Vec<NeighbouringChip>;
    /// The chip at mesh coordinate `addr`, reached through this chip.
    spec fn remote(&self, addr: EthAddr) -> Self;

    /// Read the chip's identity.
    fn ident(&self) -> (r: Result<ChipIdent, PlatformError>)
        ensures
            r matches Ok(i) ==> i == self.identity(),
    ;

    /// Where this chip sits in a mesh, for chips with ethernet.
    fn coord(&self) -> Result<Option<EthAddr>, PlatformError>;

    /// Read the chips at the other end of this chip's trained links.
    fn neighbours(&self) -> (r: Result<Vec<NeighbouringChip>, PlatformError>)
        ensures
            r matches Ok(v) ==> v@ == self.links()@,
    ;

    /// Open the chip at mesh coordinate `addr` through this chip's ethernet.
    fn open_remote(&self, addr: EthAddr) -> (r: Result<Self, PlatformError>)
        ensures
            r matches Ok(c) ==> c == self.remote(addr),
    ;
}

/// The entries of `s` whose place in `keep` is set, in order.
pub open spec fn select<T>(s: Seq<T>, keep: Seq<bool>) -> Seq<T>
    decreases s.len(),
{
    if s.len() == 0 || keep.len() == 0 {
        seq![]
    } else {
        let r = select(s.drop_last(), keep.drop_last());
        if keep.last() {
            r.push(s.last())
        } else {
            r
        }
    }
}

/// Whether `keep` marks exactly the first entry of each identity in `ids`.
pub open spec fn first_of_each(ids: Seq<ChipIdent>, keep: Seq<bool>) -> bool {
    &&& keep.len() == ids.len()
    &&& forall|i: int| 0 <= i < ids.len() ==> (#[trigger] keep[i] <==> !occurs(ids.subrange(0, i), ids[i]))
}

/// The identities of the chips of `s`, in order.
pub open spec fn identities<C: DiscoveredChip>(s: Seq<C>) -> Seq<ChipIdent> {
    s.map_values(|c: C| c.identity())
}

/// Which entries of `ids` are the first of their identity.
pub open spec fn first_mask(ids: Seq<ChipIdent>) -> Seq<bool> {
    Seq::new(ids.len(), |i: int| !occurs(ids.subrange(0, i), ids[i]))
}

/// The roots that discovery keeps: each identity's first, in order.
pub open spec fn kept_roots<C: DiscoveredChip>(roots: Seq<C>) -> Seq<C> {
    select(roots, first_mask(identities(roots)))
}

/// Whether a chip's identity is a mesh coordinate, so that discovery
/// searches its ethernet links.
pub open spec fn is_mesh<C: DiscoveredChip>(c: C) -> bool {
    c.identity().place matches Some(InterfaceIdOrCoord::Coord(_))
}

/// Whether every chip at the end of a link of `c`, opened through `root`,
/// has an identity among `ids`.
pub open spec fn links_reached<C: DiscoveredChip>(root: C, c: C, ids: Seq<ChipIdent>) -> bool {
    forall|j: int| 0 <= j < c.links()@.len() ==> occurs(ids, root.remote((#[trigger] c.links()@[j]).eth_addr).identity())
}

/// Whether the search over `all`, whose first `n_roots` entries are the
/// roots, is complete: every mesh root's links, and the links of every chip
/// found (each opened through a mesh root), lead to chips whose
/// identities are in the result.
pub open spec fn search_complete<C: DiscoveredChip>(all: Seq<C>, n_roots: int) -> bool {
    &&& roots_searched(all, n_roots)
    &&& found_searched(all, n_roots)
}

/// Every mesh root's links lead to chips whose identities are in the
/// result.
pub open spec fn roots_searched<C: DiscoveredChip>(all: Seq<C>, n_roots: int) -> bool {
    forall|k: int| 0 <= k < n_roots && is_mesh(#[trigger] all[k]) ==> links_reached(all[k], all[k], identities(all))
}

/// Every chip found was opened through a mesh root, and its links lead
/// to chips whose identities are in the result.
pub open spec fn found_searched<C: DiscoveredChip>(all: Seq<C>, n_roots: int) -> bool {
    forall|k: int| n_roots <= k < all.len() ==> #[trigger] opened_and_searched(all, n_roots, k)
}

/// Chip `k` of `all` was opened through a mesh root among the first
/// `n_roots`, and its links lead to chips whose identities are in `all`.
pub open spec fn opened_and_searched<C: DiscoveredChip>(all: Seq<C>, n_roots: int, k: int) -> bool {
    exists|j: int, a: EthAddr| 0 <= j < n_roots && is_mesh(all[j]) && #[trigger] all[j].remote(a) == all[k] && links_reached(all[j], all[k], identities(all))
}

/// Whether coordinate `a` has been visited or is waiting to be.
pub open spec fn covered(seen: Seq<EthAddr>, to_check: Seq<NeighbouringChip>, a: EthAddr) -> bool {
    occurs(seen, a) || exists|i: int| 0 <= i < to_check.len() && (#[trigger] to_check[i]).eth_addr == a
}

proof fn lemma_next_unvisited(t: Seq<NeighbouringChip>, s: Seq<EthAddr>)
    ensures
        ({
            let (t2, o) = next_unvisited(t, s);
            &&& t2.len() <= t.len()
            &&& forall|i: int| 0 <= i < t2.len() ==> t2[i] == t[i]
            &&& o is None ==> t2.len() == 0
            &&& forall|i: int| 0 <= i < t.len() ==> i < t2.len() || occurs(s, t[i].eth_addr) || o == Some(t[i])
        }),
    decreases t.len(),
{
    if t.len() > 0 {
        let d = t.drop_last();
        lemma_next_unvisited(d, s);
        if occurs(s, t.last().eth_addr) {
            let (t2, o) = next_unvisited(d, s);
            assert forall|i: int| 0 <= i < t.len() implies i < t2.len() || occurs(s, t[i].eth_addr) || o == Some(t[i]) by {
                if i < d.len() {
                    assert(d[i] == t[i]);
                }
            }
            assert forall|i: int| 0 <= i < t2.len() implies t2[i] == t[i] by {
                assert(d[i] == t[i]);
            }
        }
    }
}

proof fn lemma_covered_after_candidate(t: Seq<NeighbouringChip>, s: Seq<EthAddr>, a: EthAddr)
    requires
        covered(s, t, a),
    ensures
        ({
            let (t2, o) = next_unvisited(t, s);
            match o {
                Some(n) => covered(s.push(n.eth_addr), t2, a),
                None => occurs(s, a),
            }
        }),
{
    lemma_next_unvisited(t, s);
    let (t2, o) = next_unvisited(t, s);
    if occurs(s, a) {
        if let Some(n) = o {
            lemma_occurs_push(s, n.eth_addr, a);
        }
    } else {
        let i = choose|i: int| 0 <= i < t.len() && (#[trigger] t[i]).eth_addr == a;
        if i < t2.len() {
            assert(t2[i] == t[i]);
        } else if occurs(s, t[i].eth_addr) {
        } else {
            let n = o->Some_0;
            lemma_occurs_push(s, n.eth_addr, a);
        }
    }
}

proof fn lemma_covered_after_push(s: Seq<EthAddr>, t: Seq<NeighbouringChip>, more: Seq<NeighbouringChip>, a: EthAddr)
    ensures
        covered(s, t, a) ==> covered(s, t + queued_neighbours(more, s), a),
        forall|j: int| 0 <= j < more.len() && (#[trigger] more[j]).eth_addr == a ==> covered(s, t + queued_neighbours(more, s), a),
{
    let t2 = t + queued_neighbours(more, s);
    if covered(s, t, a) && !occurs(s, a) {
        let i = choose|i: int| 0 <= i < t.len() && (#[trigger] t[i]).eth_addr == a;
        assert(t2[i] == t[i]);
    }
    assert forall|j: int| 0 <= j < more.len() && (#[trigger] more[j]).eth_addr == a implies covered(s, t2, a) by {
        if !occurs(s, a) {
            let pred = |n: NeighbouringChip| !occurs(s, n.eth_addr);
            more.lemma_filter_contains(pred, j);
            let q = queued_neighbours(more, s);
            let k = choose|k: int| 0 <= k < q.len() && q[k] == more[j];
            assert(t2[t.len() + k] == q[k]);
        }
    }
}

proof fn lemma_reached_grows<C: DiscoveredChip>(root: C, c: C, s: Seq<ChipIdent>, y: ChipIdent)
    requires
        links_reached(root, c, s),
    ensures
        links_reached(root, c, s.push(y)),
{
    assert forall|j: int| 0 <= j < c.links()@.len() implies occurs(s.push(y), root.remote((#[trigger] c.links()@[j]).eth_addr).identity()) by {
        lemma_occurs_push(s, y, root.remote(c.links()@[j].eth_addr).identity());
    }
}

proof fn lemma_first_mask(ids: Seq<ChipIdent>, keep: Seq<bool>)
    requires
        first_of_each(ids, keep),
    ensures
        keep == first_mask(ids),
{
    assert(keep =~= first_mask(ids));
}

/// Find every chip reachable from `roots`.  First the roots are taken in
/// order, each identity once (a root whose identity an earlier root had is
/// dropped).  Then, from each root kept whose identity is a mesh
/// coordinate, a depth-first search over the ethernet links opens each
/// coordinate not yet visited from that root, checks that the chip there
/// is at that coordinate, and adds it (and searches on from it) where its
/// identity is new.  The chips found follow the roots; no two chips of the
/// result share an identity, and the search leaves no link unfollowed
/// (`search_complete`).
pub fn detect_chips<C: DiscoveredChip>(roots: Vec<C>) -> (r: Result<Vec<C>, PlatformError>)
    ensures
        roots@.len() == 0 ==> (r matches Ok(v) && v@.len() == 0),
        r matches Ok(all) ==> identities(all@).no_duplicates(),
        r matches Ok(all) ==> kept_roots(roots@).len() <= all@.len() && all@.subrange(0, kept_roots(roots@).len() as int) == kept_roots(roots@),
        r matches Ok(all) ==> search_complete(all@, kept_roots(roots@).len() as int),
{
    let ghost orig = roots@;
    let n = roots.len();
    if n == 0 {
        return Ok(Vec::new());
    }
    let mut rest = roots;
    let mut out: Vec<C> = Vec::new();
    let mut investigate: Vec<usize> = Vec::new();
    let mut state = DetectState::new();
    let ghost mut root_ids: Seq<ChipIdent> = seq![];
    let ghost mut keep: Seq<bool> = seq![];
    let mut i: usize = 0;
    while i < n
        invariant
            n == orig.len(),
            orig == roots@,
            i <= n,
            rest@ == orig.subrange(i as int, n as int),
            state.wf(),
            state.seen_chips@ == identities(out@),
            root_ids == identities(orig.subrange(0, i as int)),
            first_of_each(root_ids, keep),
            out@ == select(orig.subrange(0, i as int), keep),
            forall|x: ChipIdent| occurs(state.seen_chips@, x) <==> occurs(root_ids, x),
            forall|k: int| 0 <= k < investigate@.len() ==> #[trigger] investigate@[k] < out@.len() && is_mesh(out@[investigate@[k] as int]),
            forall|j: int| 0 <= j < out@.len() && is_mesh(#[trigger] out@[j]) ==> exists|k: int| 0 <= k < investigate@.len() && investigate@[k] == j,
        decreases n - i,
    {
        let c = rest.remove(0);
        assert(c == orig[i as int]);
        let ident = match c.ident() {
            Ok(x) => x,
            Err(e) => {
                return Err(e);
            },
        };
        let ghost before = state.seen_chips@;
        let ghost out_before = out@;
        assert(forall|x: ChipIdent| occurs(before, x) <==> occurs(root_ids, x));
        let new = state.insert_chip(ident);
        proof {
            let ids2 = root_ids.push(ident);
            assert(identities(orig.subrange(0, i + 1)) =~= ids2);
            assert(ids2.subrange(0, i as int) =~= root_ids);
            assert forall|k: int| 0 <= k < ids2.len() implies (#[trigger] keep.push(new)[k] <==> !occurs(ids2.subrange(0, k), ids2[k])) by {
                if k < i {
                    assert(ids2.subrange(0, k) =~= root_ids.subrange(0, k));
                    assert(keep.push(new)[k] == keep[k]);
                }
            }
            assert forall|x: ChipIdent| occurs(state.seen_chips@, x) <==> occurs(ids2, x) by {
                lemma_occurs_push(root_ids, ident, x);
                lemma_occurs_push(before, ident, x);
            }
            let s2 = orig.subrange(0, i + 1);
            assert(s2.drop_last() =~= orig.subrange(0, i as int));
            assert(keep.push(new).drop_last() =~= keep);
            root_ids = ids2;
            keep = keep.push(new);
        }
        if new {
            let is_mesh_root = match ident.place {
                Some(InterfaceIdOrCoord::Coord(_)) => true,
                _ => false,
            };
            let ghost inv_before = investigate@;
            if is_mesh_root {
                investigate.push(out.len());
            }
            out.push(c);
            proof {
                assert(identities(out@) =~= identities(out_before).push(ident));
                assert forall|k: int| 0 <= k < investigate@.len() implies #[trigger] investigate@[k] < out@.len() && is_mesh(out@[investigate@[k] as int]) by {
                    if k < inv_before.len() {
                        assert(investigate@[k] == inv_before[k]);
                        assert(out@[investigate@[k] as int] == out_before[investigate@[k] as int]);
                    }
                }
                assert forall|j: int| 0 <= j < out@.len() && is_mesh(#[trigger] out@[j]) implies exists|k: int| 0 <= k < investigate@.len() && investigate@[k] == j by {
                    if j < out_before.len() {
                        assert(out@[j] == out_before[j]);
                        let k = choose|k: int| 0 <= k < inv_before.len() && inv_before[k] == j;
                        assert(investigate@[k] == j);
                    } else {
                        assert(investigate@[inv_before.len() as int] == j);
                    }
                }
            }
        }
        assert(rest@ =~= orig.subrange(i + 1, n as int));
        i = i + 1;
    }
    assert(orig.subrange(0, n as int) =~= orig);
    proof {
        lemma_first_mask(root_ids, keep);
    }
    let ghost kept = out@;
    assert(kept == kept_roots(orig));
    if n == 0 {
        assert(out@.len() == 0);
    }

    let mut found: Vec<C> = Vec::new();
    let ghost mut origin: Seq<int> = seq![];
    let ghost mut at: Seq<EthAddr> = seq![];
    let mut r: usize = 0;
    while r < investigate.len()
        invariant
            orig == roots@,
            orig.len() > 0,
            kept == kept_roots(orig),
            out@ == kept,
            state.wf(),
            state.seen_chips@ == identities(out@ + found@),
            forall|k: int| 0 <= k < investigate@.len() ==> #[trigger] investigate@[k] < out@.len() && is_mesh(out@[investigate@[k] as int]),
            forall|j: int| 0 <= j < out@.len() && is_mesh(#[trigger] out@[j]) ==> exists|k: int| 0 <= k < investigate@.len() && investigate@[k] == j,
            origin.len() == found@.len() && at.len() == found@.len(),
            forall|k: int| 0 <= k < found@.len() ==> 0 <= #[trigger] origin[k] < kept.len() && is_mesh(kept[origin[k]])
                && kept[origin[k]].remote(at[k]) == found@[k] && links_reached(kept[origin[k]], found@[k], state.seen_chips@),
            forall|q: int| 0 <= q < r ==> links_reached(kept[#[trigger] investigate@[q] as int], kept[investigate@[q] as int], state.seen_chips@),
        decreases investigate@.len() - r,
    {
        let idx = investigate[r];
        let root = &out[idx];
        let neighbours = match root.neighbours() {
            Ok(v) => v,
            Err(e) => {
                return Err(e);
            },
        };
        state.begin_root(neighbours);
        let ghost start = found@.len();
        let ghost rc: C = kept[idx as int];
        proof {
            assert forall|j: int| 0 <= j < rc.links()@.len() implies covered(state.seen_coords@, state.to_check@, (#[trigger] rc.links()@[j]).eth_addr) by {
                assert(state.to_check@[j] == rc.links()@[j]);
            }
        }
        loop
            invariant_except_break
                forall|k: int, j: int| start <= k < found@.len() && 0 <= j < found@[k].links()@.len() ==> covered(state.seen_coords@, state.to_check@, (#[trigger] found@[k].links()@[j]).eth_addr),
                forall|j: int| 0 <= j < rc.links()@.len() ==> covered(state.seen_coords@, state.to_check@, (#[trigger] rc.links()@[j]).eth_addr),
            invariant
                orig == roots@,
                orig.len() > 0,
                out@ == kept,
                r < investigate@.len(),
                idx == investigate@[r as int],
                idx < out@.len(),
                *root == rc,
                rc == kept[idx as int],
                is_mesh(rc),
                state.wf(),
                state.seen_chips@ == identities(out@ + found@),
                forall|k: int| 0 <= k < investigate@.len() ==> #[trigger] investigate@[k] < out@.len() && is_mesh(out@[investigate@[k] as int]),
                forall|j: int| 0 <= j < out@.len() && is_mesh(#[trigger] out@[j]) ==> exists|k: int| 0 <= k < investigate@.len() && investigate@[k] == j,
                start <= found@.len(),
                origin.len() == found@.len() && at.len() == found@.len(),
                forall|k: int| 0 <= k < found@.len() ==> 0 <= #[trigger] origin[k] < kept.len() && is_mesh(kept[origin[k]])
                    && kept[origin[k]].remote(at[k]) == found@[k],
                forall|k: int| 0 <= k < start ==> links_reached(kept[origin[k]], #[trigger] found@[k], state.seen_chips@),
                forall|k: int| start <= k < found@.len() ==> #[trigger] origin[k] == idx,
                forall|q: int| 0 <= q < r ==> links_reached(kept[#[trigger] investigate@[q] as int], kept[investigate@[q] as int], state.seen_chips@),
                forall|a: EthAddr| occurs(state.seen_coords@, a) ==> occurs(state.seen_chips@, #[trigger] rc.remote(a).identity()),
            ensures
                state.wf(),
                state.seen_chips@ == identities(out@ + found@),
                origin.len() == found@.len() && at.len() == found@.len(),
                forall|k: int| 0 <= k < found@.len() ==> 0 <= #[trigger] origin[k] < kept.len() && is_mesh(kept[origin[k]])
                    && kept[origin[k]].remote(at[k]) == found@[k] && links_reached(kept[origin[k]], found@[k], state.seen_chips@),
                forall|q: int| 0 <= q <= r ==> links_reached(kept[#[trigger] investigate@[q] as int], kept[investigate@[q] as int], state.seen_chips@),
            decreases 0x1_0000_0001 - state.seen_coords@.len(),
        {
            proof {
                lemma_coords_bounded(state.seen_coords@);
            }
            let ghost s0 = state.seen_coords@;
            let ghost t0 = state.to_check@;
            let candidate = match state.next_candidate() {
                Some(c) => c,
                None => {
                    proof {
                        assert forall|a: EthAddr| covered(s0, t0, a) implies occurs(state.seen_chips@, #[trigger] rc.remote(a).identity()) by {
                            lemma_covered_after_candidate(t0, s0, a);
                        }
                        assert forall|k: int| 0 <= k < found@.len() implies links_reached(kept[origin[k]], #[trigger] found@[k], state.seen_chips@) by {
                            if k >= start {
                                assert forall|j: int| 0 <= j < found@[k].links()@.len() implies occurs(state.seen_chips@, kept[origin[k]].remote((#[trigger] found@[k].links()@[j]).eth_addr).identity()) by {
                                    lemma_covered_after_candidate(t0, s0, found@[k].links()@[j].eth_addr);
                                }
                            }
                        }
                        assert forall|q: int| 0 <= q <= r implies links_reached(kept[#[trigger] investigate@[q] as int], kept[investigate@[q] as int], state.seen_chips@) by {
                            if q == r {
                                assert forall|j: int| 0 <= j < rc.links()@.len() implies occurs(state.seen_chips@, rc.remote((#[trigger] rc.links()@[j]).eth_addr).identity()) by {
                                    lemma_covered_after_candidate(t0, s0, rc.links()@[j].eth_addr);
                                }
                            }
                        }
                    }
                    break;
                },
            };
            proof {
                assert forall|a: EthAddr| covered(s0, t0, a) implies covered(state.seen_coords@, state.to_check@, a) by {
                    lemma_covered_after_candidate(t0, s0, a);
                }
            }
            let chip = match root.open_remote(candidate.eth_addr) {
                Ok(c) => c,
                Err(e) => {
                    return Err(e);
                },
            };
            let at_coord = match chip.coord() {
                Ok(c) => c,
                Err(e) => {
                    return Err(e);
                },
            };
            let matches_candidate = match at_coord {
                Some(a) => a == candidate.eth_addr,
                None => false,
            };
            if !matches_candidate {
                return Err(PlatformError::generic(
                    "When detecting chips in mesh found a mismatch between the expected chip coordinate and the actual".to_owned(),
                ));
            }
            let ident = match chip.ident() {
                Ok(x) => x,
                Err(e) => {
                    return Err(e);
                },
            };
            let ghost c_before = state.seen_chips@;
            let new = state.insert_chip(ident);
            proof {
                // Every identity recorded before still is, and the new chip's is.
                assert forall|x: ChipIdent| occurs(c_before, x) implies occurs(state.seen_chips@, x) by {
                    if new {
                        lemma_occurs_push(c_before, ident, x);
                    }
                }
                if new {
                    lemma_occurs_push(c_before, ident, ident);
                }
                assert(occurs(state.seen_chips@, ident));
                assert forall|a: EthAddr| occurs(state.seen_coords@, a) implies occurs(state.seen_chips@, #[trigger] rc.remote(a).identity()) by {
                    lemma_occurs_push(s0, candidate.eth_addr, a);
                }
                if new {
                    assert forall|k: int| 0 <= k < start implies links_reached(kept[origin[k]], #[trigger] found@[k], state.seen_chips@) by {
                        lemma_reached_grows(kept[origin[k]], found@[k], c_before, ident);
                    }
                    assert forall|q: int| 0 <= q < r implies links_reached(kept[#[trigger] investigate@[q] as int], kept[investigate@[q] as int], state.seen_chips@) by {
                        lemma_reached_grows(kept[investigate@[q] as int], kept[investigate@[q] as int], c_before, ident);
                    }
                }
            }
            if new {
                let more = match chip.neighbours() {
                    Ok(v) => v,
                    Err(e) => {
                        return Err(e);
                    },
                };
                let ghost s1 = state.seen_coords@;
                let ghost t1 = state.to_check@;
                let ghost found_before = found@;
                state.push_neighbours(more);
                found.push(chip);
                proof {
                    origin = origin.push(idx as int);
                    at = at.push(candidate.eth_addr);
                    assert(identities(out@ + found@) =~= identities(out@ + found_before).push(ident));
                    assert forall|a: EthAddr| covered(s1, t1, a) implies covered(state.seen_coords@, state.to_check@, a) by {
                        lemma_covered_after_push(s1, t1, more@, a);
                    }
                    assert forall|k: int, j: int| start <= k < found@.len() && 0 <= j < found@[k].links()@.len() implies covered(state.seen_coords@, state.to_check@, (#[trigger] found@[k].links()@[j]).eth_addr) by {
                        let a = found@[k].links()@[j].eth_addr;
                        if k < found_before.len() {
                            assert(found@[k] == found_before[k]);
                            lemma_covered_after_push(s1, t1, more@, a);
                        } else {
                            assert(found@[k] == chip);
                            assert(more@[j] == chip.links()@[j]);
                            lemma_covered_after_push(s1, t1, more@, a);
                        }
                    }
                    assert forall|k: int| 0 <= k < found@.len() implies 0 <= #[trigger] origin[k] < kept.len() && is_mesh(kept[origin[k]])
                        && kept[origin[k]].remote(at[k]) == found@[k] by {
                        if k < found_before.len() {
                            assert(found@[k] == found_before[k]);
                        }
                    }
                    assert forall|k: int| 0 <= k < start implies links_reached(kept[origin[k]], #[trigger] found@[k], state.seen_chips@) by {
                        assert(found@[k] == found_before[k]);
                    }
                }
            }
        }
        r = r + 1;
    }
    let ghost sel = kept;
    let mut all = out;
    let mut k: usize = 0;
    let fl = found.len();
    let ghost found_v = found@;
    while k < fl
        invariant
            orig == roots@,
            orig.len() > 0,
            k <= fl == found_v.len(),
            found@ == found_v.subrange(k as int, fl as int),
            all@ == kept + found_v.subrange(0, k as int),
        decreases fl - k,
    {
        let c = found.remove(0);
        all.push(c);
        assert(found@ =~= found_v.subrange(k + 1, fl as int));
        assert(all@ =~= kept + found_v.subrange(0, k + 1));
        k = k + 1;
    }
    proof {
        assert(found_v.subrange(0, fl as int) =~= found_v);
        assert(all@.subrange(0, sel.len() as int) =~= sel);
        let ids = identities(all@);
        assert(all@ =~= out@ + found_v);
        assert(ids == state.seen_chips@);
        assert(sel.len() == kept_roots(orig).len());
        assert forall|k: int| 0 <= k < sel.len() && is_mesh(#[trigger] all@[k]) implies links_reached(all@[k], all@[k], ids) by {
            assert(all@[k] == kept[k]);
            let q = choose|q: int| 0 <= q < investigate@.len() && investigate@[q] == k;
            assert(links_reached(kept[investigate@[q] as int], kept[investigate@[q] as int], ids));
        }
        let al = all@;
        let nr = sel.len() as int;
        assert forall|k: int| 0 <= k < nr && is_mesh(#[trigger] al[k]) implies links_reached(al[k], al[k], identities(al)) by {
            assert(al[k] == kept[k]);
        }
        assert forall|k: int| nr <= k < al.len() implies #[trigger] opened_and_searched(al, nr, k) by {
            let f = k - nr;
            assert(al[k] == found_v[f]);
            let j = origin[f];
            assert(al[j] == kept[j]);
            assert(0 <= j < nr && is_mesh(al[j]) && al[j].remote(at[f]) == al[k] && links_reached(al[j], al[k], identities(al)));
        }
        assert(search_complete(al, nr));
        assert(sel == kept_roots(roots@));
    }
    Ok(all)
}

/// A link to a neighbouring chip: the local port, the neighbour's
/// coordinate and the NOC node of its ethernet core.
#[derive(Clone, Copy, Debug)]
pub struct Hop {
    pub eth_id: usize,
    pub coord: EthAddr,
    pub noc_xy: (u8, u8),
}

/// Whether the hop at `i` reaches a coordinate that an earlier hop reached.
pub open spec fn repeats_earlier(hops: Seq<Hop>, i: int) -> bool {
    exists|j: int| 0 <= j < i && hops[j].coord == hops[i].coord
}

/// The hops kept from `hops`, in order: with `only_unique`, a hop to a
/// coordinate already reached from this chip is left out.
pub open spec fn kept_hops(hops: Seq<Hop>, only_unique: bool) -> Seq<Hop>
    decreases hops.len(),
{
    if hops.len() == 0 {
        seq![]
    } else {
        let rest = kept_hops(hops.drop_last(), only_unique);
        if only_unique && repeats_earlier(hops, hops.len() - 1) {
            rest
        } else {
            rest.push(hops.last())
        }
    }
}

/// The hops to report from one chip, given those found on its connected
/// ports in port order.
pub fn select_hops(hops: &Vec<Hop>, only_unique: bool) -> (r: Vec<Hop>)
    ensures
        r@ == kept_hops(hops@, only_unique),
{
    let mut out: Vec<Hop> = Vec::new();
    let mut i: usize = 0;
    while i < hops.len()
        invariant
            i <= hops@.len(),
            out@ == kept_hops(hops@.subrange(0, i as int), only_unique),
        decreases hops@.len() - i,
    {
        let h = hops[i];
        let mut seen = false;
        let mut j: usize = 0;
        while j < i
            invariant
                j <= i < hops@.len(),
                h == hops@[i as int],
                seen == exists|k: int| 0 <= k < j && hops@[k].coord == h.coord,
            decreases i - j,
        {
            if hops[j].coord == h.coord {
                seen = true;
            }
            j = j + 1;
        }
        proof {
            let pre = hops@.subrange(0, i + 1);
            assert(pre.drop_last() =~= hops@.subrange(0, i as int));
            assert(pre.last() == h);
            assert(repeats_earlier(pre, i as int) == seen) by {
                if seen {
                    let k = choose|k: int| 0 <= k < i && hops@[k].coord == h.coord;
                    assert(pre[k] == hops@[k]);
                }
                if repeats_earlier(pre, i as int) {
                    let k = choose|k: int| 0 <= k < i && pre[k].coord == pre[i as int].coord;
                    assert(pre[k] == hops@[k]);
                }
            }
        }
        if !(only_unique && seen) {
            out.push(h);
        }
        i = i + 1;
    }
    assert(hops@.subrange(0, i as int) =~= hops@);
    out
}

/// With `only_unique`, no coordinate is reported twice.
pub proof fn lemma_unique_hops(hops: Seq<Hop>)
    ensures
        forall|i: int, j: int|
            0 <= i < j < kept_hops(hops, true).len() ==> kept_hops(hops, true)[i].coord
                != kept_hops(hops, true)[j].coord,
        forall|i: int|
            0 <= i < kept_hops(hops, true).len() ==> exists|k: int|
                0 <= k < hops.len() && hops[k] == #[trigger] kept_hops(hops, true)[i],
    decreases hops.len(),
{
    if hops.len() > 0 {
        let pre = hops.drop_last();
        lemma_unique_hops(pre);
        let rest = kept_hops(pre, true);
        if !repeats_earlier(hops, hops.len() - 1) {
            let k = kept_hops(hops, true);
            assert(k == rest.push(hops.last()));
            assert forall|i: int| 0 <= i < rest.len() implies rest[i].coord != hops.last().coord by {
                let m = choose|m: int| 0 <= m < pre.len() && pre[m] == rest[i];
                assert(hops[m] == pre[m]);
                if rest[i].coord == hops.last().coord {
                    assert(repeats_earlier(hops, hops.len() - 1));
                }
            }
            assert forall|i: int| 0 <= i < k.len() implies exists|m: int|
                0 <= m < hops.len() && hops[m] == #[trigger] k[i] by {
                if i < rest.len() {
                    let m = choose|m: int| 0 <= m < pre.len() && pre[m] == rest[i];
                    assert(hops[m] == pre[m]);
                } else {
                    assert(hops[hops.len() - 1] == k[i]);
                }
            }
        } else {
            assert forall|i: int| 0 <= i < rest.len() implies exists|m: int|
                0 <= m < hops.len() && hops[m] == #[trigger] rest[i] by {
                let m = choose|m: int| 0 <= m < pre.len() && pre[m] == rest[i];
                assert(hops[m] == pre[m]);
            }
        }
    }
}

} // verus!
