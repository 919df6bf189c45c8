//! The table of public ports handed out to tunnels, and the tunnels registered
//! under their ids. What a tunnel carries besides its id and port (its shared
//! record, the channels that stop it, its broker subscription) is opaque here:
//! the table holds it as a handle `H` and hands it back.

use vstd::prelude::*;

verus! {

/// A registered tunnel: its id, the public port it listens on, and its handle.
pub struct TunnelSlot<H> {
    pub id: String,
    pub public_port: i32,
    pub handle: H,
}

/// The registered tunnels as a map from id to port and handle; a later slot
/// with the same id would win.
pub open spec fn slots_map<H>(s: Seq<TunnelSlot<H>>) -> Map<Seq<char>, (i32, H)>
    decreases s.len(),
{
    if s.len() == 0 {
        Map::empty()
    } else {
        slots_map(s.drop_last()).insert(s.last().id@, (s.last().public_port, s.last().handle))
    }
}

/// No id is registered twice.
pub open spec fn unique_ids<H>(s: Seq<TunnelSlot<H>>) -> bool {
    forall|i: int, j: int| 0 <= i < j < s.len() ==> #[trigger] s[i].id@ != #[trigger] s[j].id@
}

/// With distinct ids, the map holds exactly the slots' ids, each with its
/// slot's port and handle.
pub proof fn lemma_slots_map<H>(s: Seq<TunnelSlot<H>>)
    requires
        unique_ids(s),
    ensures
        forall|i: int| 0 <= i < s.len() ==> #[trigger] slots_map(s).contains_key(s[i].id@)
            && slots_map(s)[s[i].id@] == (s[i].public_port, s[i].handle),
        forall|k: Seq<char>| #[trigger] slots_map(s).contains_key(k) ==> exists|i: int| 0 <= i < s.len() && s[i].id@ == k,
    decreases s.len(),
{
    if s.len() > 0 {
        let p = s.drop_last();
        assert(unique_ids(p)) by {
            assert forall|i: int, j: int| 0 <= i < j < p.len() implies #[trigger] p[i].id@ != #[trigger] p[j].id@ by {
                assert(p[i] == s[i] && p[j] == s[j]);
            }
        }
        lemma_slots_map(p);
        assert forall|i: int| 0 <= i < s.len() implies #[trigger] slots_map(s).contains_key(s[i].id@)
            && slots_map(s)[s[i].id@] == (s[i].public_port, s[i].handle) by {
            assert(slots_map(s) == slots_map(p).insert(s.last().id@, (s.last().public_port, s.last().handle)));
            if i < s.len() - 1 {
                assert(p[i] == s[i]);
                assert(s[i].id@ != s[s.len() - 1].id@);
                assert(slots_map(p).contains_key(p[i].id@));
            }
        }
        assert forall|k: Seq<char>| #[trigger] slots_map(s).contains_key(k) implies exists|i: int| 0 <= i < s.len() && s[i].id@ == k by {
            assert(slots_map(s) == slots_map(p).insert(s.last().id@, (s.last().public_port, s.last().handle)));
            if k != s.last().id@ {
                assert(slots_map(p).contains_key(k));
                let i = choose|i: int| 0 <= i < p.len() && p[i].id@ == k;
                assert(s[i] == p[i]);
            } else {
                assert(s[s.len() - 1].id@ == k);
            }
        }
    }
}

/// Replacing a slot by one with the same id replaces that id's entry.
pub proof fn lemma_slots_update<H>(s: Seq<TunnelSlot<H>>, i: int, y: TunnelSlot<H>)
    requires
        unique_ids(s),
        0 <= i < s.len(),
        y.id@ == s[i].id@,
    ensures
        unique_ids(s.update(i, y)),
        slots_map(s.update(i, y)) == slots_map(s).insert(y.id@, (y.public_port, y.handle)),
{
    let t = s.update(i, y);
    assert(unique_ids(t)) by {
        assert forall|a: int, b: int| 0 <= a < b < t.len() implies #[trigger] t[a].id@ != #[trigger] t[b].id@ by {
            assert(t[a].id@ == s[a].id@ && t[b].id@ == s[b].id@);
        }
    }
    lemma_slots_map(s);
    lemma_slots_map(t);
    let m = slots_map(s).insert(y.id@, (y.public_port, y.handle));
    assert forall|k: Seq<char>| slots_map(t).contains_key(k) <==> m.contains_key(k) by {
        if slots_map(t).contains_key(k) {
            let j = choose|j: int| 0 <= j < t.len() && t[j].id@ == k;
            assert(s[j].id@ == k);
        }
        if m.contains_key(k) && k != y.id@ {
            let j = choose|j: int| 0 <= j < s.len() && s[j].id@ == k;
            assert(t[j].id@ == k);
        }
        if k == y.id@ {
            assert(t[i].id@ == k);
        }
    }
    assert forall|k: Seq<char>| #[trigger] slots_map(t).contains_key(k) implies slots_map(t)[k] == m[k] by {
        let j = choose|j: int| 0 <= j < t.len() && t[j].id@ == k;
        assert(slots_map(t).contains_key(t[j].id@));
        assert(slots_map(s).contains_key(s[j].id@));
        if j != i {
            assert(s[j] == t[j]);
        }
    }
    assert(slots_map(t) =~= m);
}

/// Removing a slot removes its id's entry.
pub proof fn lemma_slots_remove<H>(s: Seq<TunnelSlot<H>>, i: int)
    requires
        unique_ids(s),
        0 <= i < s.len(),
    ensures
        unique_ids(s.remove(i)),
        slots_map(s.remove(i)) == slots_map(s).remove(s[i].id@),
{
    let t = s.remove(i);
    let x = s[i].id@;
    assert(unique_ids(t)) by {
        assert forall|a: int, b: int| 0 <= a < b < t.len() implies #[trigger] t[a].id@ != #[trigger] t[b].id@ by {
            let a2 = if a < i { a } else { a + 1 };
            let b2 = if b < i { b } else { b + 1 };
            assert(t[a] == s[a2] && t[b] == s[b2]);
        }
    }
    lemma_slots_map(s);
    lemma_slots_map(t);
    let m = slots_map(s).remove(x);
    assert forall|k: Seq<char>| slots_map(t).contains_key(k) <==> m.contains_key(k) by {
        if slots_map(t).contains_key(k) {
            let j = choose|j: int| 0 <= j < t.len() && t[j].id@ == k;
            let j2 = if j < i { j } else { j + 1 };
            assert(s[j2] == t[j]);
            assert(k != x);
        }
        if m.contains_key(k) {
            let j = choose|j: int| 0 <= j < s.len() && s[j].id@ == k;
            assert(j != i);
            let j2 = if j < i { j } else { j - 1 };
            assert(t[j2] == s[j]);
        }
    }
    assert forall|k: Seq<char>| #[trigger] slots_map(t).contains_key(k) implies slots_map(t)[k] == m[k] by {
        let j = choose|j: int| 0 <= j < t.len() && t[j].id@ == k;
        let j2 = if j < i { j } else { j + 1 };
        assert(s[j2] == t[j]);
        assert(slots_map(t).contains_key(t[j].id@));
        assert(slots_map(s).contains_key(s[j2].id@));
        assert(s[j2].id@ != x);
    }
    assert(slots_map(t) =~= m);
}

/// The abstract state of a port manager: the registered tunnels by id, which
/// ports of the range are in use (index 0 is the range's first port), and the
/// range.
pub struct PortTable<H> {
    pub tunnels: Map<Seq<char>, (i32, H)>,
    pub used: Seq<bool>,
    pub start: i32,
    pub size: i32,
}

/// `i` is the lowest index of a port not in use.
pub open spec fn is_lowest_free(used: Seq<bool>, i: int) -> bool {
    0 <= i < used.len() && !used[i] && forall|j: int| 0 <= j < i ==> #[trigger] used[j]
}

/// The table after registering `id` on `public_port` with `handle`: an earlier
/// registration of `id` is replaced, and the port is marked in use.
pub open spec fn table_add<H>(t: PortTable<H>, id: Seq<char>, public_port: i32, handle: H) -> PortTable<H> {
    PortTable {
        tunnels: t.tunnels.insert(id, (public_port, handle)),
        used: t.used.update(public_port - t.start, true),
        start: t.start,
        size: t.size,
    }
}

/// The table after removing `id`: its entry is gone and its port is free
/// again; a table without `id` stays as it is.
pub open spec fn table_remove<H>(t: PortTable<H>, id: Seq<char>) -> PortTable<H> {
    if t.tunnels.contains_key(id) {
        PortTable {
            tunnels: t.tunnels.remove(id),
            used: t.used.update(t.tunnels[id].0 - t.start, false),
            start: t.start,
            size: t.size,
        }
    } else {
        t
    }
}

/// Hands out the ports of a range to tunnels and keeps the tunnels by id.
pub struct PortManager<H> {
    pub tunnels: Vec<TunnelSlot<H>>,
    pub used_ports: Vec<bool>,
    pub port_range_start: i32,
    pub port_range_size: i32,
}

impl<H> PortManager<H> {
    /// One flag per port of the range, ids registered once, and every
    /// registered port inside the range.
    pub open spec fn wf(&self) -> bool {
        &&& self.port_range_size >= 0
        &&& self.used_ports@.len() == self.port_range_size
        &&& unique_ids(self.tunnels@)
        &&& forall|i: int|
            0 <= i < self.tunnels@.len() ==> self.port_range_start <= #[trigger] self.tunnels@[i].public_port
                < self.port_range_start + self.port_range_size
    }

    /// The manager's abstract state.
    pub open spec fn table(&self) -> PortTable<H> {
        PortTable {
            tunnels: slots_map(self.tunnels@),
            used: self.used_ports@,
            start: self.port_range_start,
            size: self.port_range_size,
        }
    }

    /// The index of the slot registered under `id`, if any.
    fn find_slot(&self, id: &String) -> (r: Option<usize>)
        ensures
            match r {
                Some(i) => i < self.tunnels@.len() && self.tunnels@[i as int].id@ == id@,
                None => forall|i: int| 0 <= i < self.tunnels@.len() ==> #[trigger] self.tunnels@[i].id@ != id@,
            },
    {
        let mut i: usize = 0;
        while i < self.tunnels.len()
            invariant
                i <= self.tunnels@.len(),
                forall|j: int| 0 <= j < i ==> #[trigger] self.tunnels@[j].id@ != id@,
            decreases self.tunnels@.len() - i,
        {
            if self.tunnels[i].id == *id {
                return Some(i);
            }
            i = i + 1;
        }
        None
    }

    /// The handle of the tunnel registered under `id`, if any.
    pub fn get_tunnel(&self, id: &String) -> (r: Option<&H>)
        requires
            self.wf(),
        ensures
            match r {
                Some(h) => self.table().tunnels.contains_key(id@) && *h == self.table().tunnels[id@].1,
                None => !self.table().tunnels.contains_key(id@),
            },
    {
        proof {
            lemma_slots_map(self.tunnels@);
        }
        match self.find_slot(id) {
            Some(i) => {
                assert(slots_map(self.tunnels@).contains_key(self.tunnels@[i as int].id@));
                Some(&self.tunnels[i].handle)
            },
            None => None,
        }
    }

    /// The offset in the range of the lowest port not in use, or `None` when
    /// all are in use.
    pub fn lowest_free_index(&self) -> (r: Option<usize>)
        ensures
            match r {
                Some(i) => is_lowest_free(self.used_ports@, i as int),
                None => forall|i: int| 0 <= i < self.used_ports@.len() ==> #[trigger] self.used_ports@[i],
            },
    {
        let mut i: usize = 0;
        while i < self.used_ports.len()
            invariant
                i <= self.used_ports@.len(),
                forall|j: int| 0 <= j < i ==> #[trigger] self.used_ports@[j],
            decreases self.used_ports@.len() - i,
        {
            if !self.used_ports[i] {
                return Some(i);
            }
            i = i + 1;
        }
        None
    }

    /// The lowest port of the range not in use, or `Err` when all are.
    pub fn allocate_port(&self) -> (r: Result<i32, ()>)
        requires
            self.wf(),
            forall|i: int| #[trigger] is_lowest_free(self.used_ports@, i) ==> self.port_range_start + i <= i32::MAX,
        ensures
            match r {
                Ok(port) => is_lowest_free(self.used_ports@, port - self.port_range_start),
                Err(_) => forall|i: int| 0 <= i < self.used_ports@.len() ==> #[trigger] self.used_ports@[i],
            },
    {
        let mut port: i32 = 0;
        while port < self.port_range_size
            invariant
                self.wf(),
                forall|i: int| #[trigger] is_lowest_free(self.used_ports@, i) ==> self.port_range_start + i <= i32::MAX,
                0 <= port <= self.port_range_size,
                forall|j: int| 0 <= j < port ==> #[trigger] self.used_ports@[j],
            decreases self.port_range_size - port,
        {
            let b = self.used_ports[port as usize];
            if !b {
                assert(is_lowest_free(self.used_ports@, port as int));
                return Ok(self.port_range_start + port);
            }
            port = port + 1;
        }
        Err(())
    }

    /// Registers a tunnel under `id` on `public_port` (replacing an earlier
    /// registration of `id`) and marks the port in use.
    pub fn add_tunnel(&mut self, id: String, public_port: i32, handle: H)
        requires
            old(self).wf(),
            old(self).port_range_start <= public_port < old(self).port_range_start + old(self).port_range_size,
        ensures
            final(self).wf(),
            final(self).table() == table_add(old(self).table(), id@, public_port, handle),
    {
        let ghost key = id@;
        let index = (public_port - self.port_range_start) as usize;
        let slot = TunnelSlot { id, public_port, handle };
        match self.find_slot(&slot.id) {
            Some(i) => {
                proof {
                    lemma_slots_update(self.tunnels@, i as int, slot);
                }
                self.tunnels.set(i, slot);
            },
            None => {
                let ghost before = self.tunnels@;
                self.tunnels.push(slot);
                proof {
                    assert(self.tunnels@.drop_last() =~= before);
                    assert(unique_ids(self.tunnels@)) by {
                        assert forall|a: int, b: int| 0 <= a < b < self.tunnels@.len() implies
                            #[trigger] self.tunnels@[a].id@ != #[trigger] self.tunnels@[b].id@ by {
                            if b < before.len() {
                                assert(self.tunnels@[a] == before[a] && self.tunnels@[b] == before[b]);
                            } else {
                                assert(self.tunnels@[a] == before[a]);
                            }
                        }
                    }
                }
            },
        }
        self.used_ports.set(index, true);
        assert(self.table().tunnels =~= old(self).table().tunnels.insert(key, (public_port, handle)));
        assert(forall|i: int| 0 <= i < self.tunnels@.len() ==> self.port_range_start <= #[trigger] self.tunnels@[i].public_port < self.port_range_start + self.port_range_size) by {
            assert forall|i: int| 0 <= i < self.tunnels@.len() implies self.port_range_start <= #[trigger] self.tunnels@[i].public_port < self.port_range_start + self.port_range_size by {
                if i < old(self).tunnels@.len() && self.tunnels@[i] != slot {
                    assert(self.tunnels@[i] == old(self).tunnels@[i]);
                }
            }
        }
    }

    /// Takes the tunnel registered under `id` out of the registry, leaving its
    /// port marked in use; `None` when no tunnel is registered under `id`.
    pub fn unregister_tunnel(&mut self, id: &String) -> (r: Option<TunnelSlot<H>>)
        requires
            old(self).wf(),
        ensures
            final(self).wf(),
            final(self).used_ports == old(self).used_ports,
            final(self).port_range_start == old(self).port_range_start,
            final(self).port_range_size == old(self).port_range_size,
            match r {
                Some(slot) => old(self).table().tunnels.contains_key(id@) && slot.id@ == id@
                    && (slot.public_port, slot.handle) == old(self).table().tunnels[id@]
                    && final(self).table().tunnels == old(self).table().tunnels.remove(id@),
                None => !old(self).table().tunnels.contains_key(id@) && final(self).table() == old(self).table(),
            },
    {
        proof {
            lemma_slots_map(self.tunnels@);
        }
        match self.find_slot(id) {
            Some(i) => {
                proof {
                    lemma_slots_remove(self.tunnels@, i as int);
                    assert(slots_map(self.tunnels@).contains_key(self.tunnels@[i as int].id@));
                }
                let slot = self.tunnels.remove(i);
                assert forall|k: int| 0 <= k < self.tunnels@.len() implies self.port_range_start <= #[trigger] self.tunnels@[k].public_port < self.port_range_start + self.port_range_size by {
                    let k2 = if k < i { k } else { k + 1 };
                    assert(self.tunnels@[k] == old(self).tunnels@[k2]);
                }
                Some(slot)
            },
            None => None,
        }
    }

    /// Marks `public_port` free.
    pub fn release_port(&mut self, public_port: i32)
        requires
            old(self).wf(),
            old(self).port_range_start <= public_port < old(self).port_range_start + old(self).port_range_size,
        ensures
            final(self).wf(),
            final(self).tunnels == old(self).tunnels,
            final(self).port_range_start == old(self).port_range_start,
            final(self).port_range_size == old(self).port_range_size,
            final(self).used_ports@ == old(self).used_ports@.update(public_port - old(self).port_range_start, false),
    {
        let index = (public_port - self.port_range_start) as usize;
        self.used_ports.set(index, false);
    }

    /// Removes the tunnel registered under `id`, frees its port and hands back
    /// its handle; `None` when no tunnel is registered under `id`.
    pub fn remove_tunnel(&mut self, id: &String) -> (r: Option<H>)
        requires
            old(self).wf(),
        ensures
            final(self).wf(),
            final(self).table() == table_remove(old(self).table(), id@),
            match r {
                Some(h) => old(self).table().tunnels.contains_key(id@) && h == old(self).table().tunnels[id@].1,
                None => !old(self).table().tunnels.contains_key(id@),
            },
    {
        proof {
            lemma_slots_map(self.tunnels@);
        }
        match self.unregister_tunnel(id) {
            Some(slot) => {
                proof {
                    let i = choose|i: int| 0 <= i < old(self).tunnels@.len() && old(self).tunnels@[i].id@ == id@;
                    assert(slots_map(old(self).tunnels@).contains_key(old(self).tunnels@[i].id@));
                }
                self.release_port(slot.public_port);
                Some(slot.handle)
            },
            None => None,
        }
    }
}

/// A manager for the `port_range_size` ports from `port_range_start`, all free,
/// with no tunnel registered.
pub fn create_port_manager<H>(port_range_start: i32, port_range_size: i32) -> (m: PortManager<H>)
    requires
        port_range_size >= 0,
    ensures
        m.wf(),
        m.table().tunnels == Map::<Seq<char>, (i32, H)>::empty(),
        m.table().used == Seq::new(port_range_size as nat, |i: int| false),
        m.table().start == port_range_start,
        m.table().size == port_range_size,
{
    let mut used_ports: Vec<bool> = Vec::new();
    let mut i: i32 = 0;
    while i < port_range_size
        invariant
            0 <= i <= port_range_size,
            used_ports@ == Seq::new(i as nat, |j: int| false),
        decreases port_range_size - i,
    {
        used_ports.push(false);
        i = i + 1;
        assert(used_ports@ =~= Seq::new(i as nat, |j: int| false));
    }
    let m = PortManager { tunnels: Vec::new(), used_ports, port_range_start, port_range_size };
    assert(m.table().tunnels =~= Map::<Seq<char>, (i32, H)>::empty());
    m
}

/// Registering a tunnel and then removing it gives back its handle and the
/// table as it was, provided the id was not registered and the port was free.
pub proof fn law_add_then_remove<H>(t: PortTable<H>, id: Seq<char>, public_port: i32, handle: H)
    requires
        !t.tunnels.contains_key(id),
        t.start <= public_port < t.start + t.size,
        t.used.len() == t.size,
        !t.used[public_port - t.start],
    ensures
        table_add(t, id, public_port, handle).tunnels.contains_key(id),
        table_add(t, id, public_port, handle).tunnels[id] == (public_port, handle),
        table_remove(table_add(t, id, public_port, handle), id) == t,
{
    let a = table_add(t, id, public_port, handle);
    let r = table_remove(a, id);
    assert(r.tunnels =~= t.tunnels);
    assert(r.used =~= t.used);
}

/// The port handed out is free, and no free port of the range lies below it:
/// of two free ports, the lower one is handed out first.
pub proof fn law_allocated_port_is_lowest(used: Seq<bool>, i: int, j: int)
    requires
        is_lowest_free(used, i),
        0 <= j < used.len(),
        !used[j],
    ensures
        0 <= i <= j,
        !used[i],
{
}

} // verus!
