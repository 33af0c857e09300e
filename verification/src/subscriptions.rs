//! The table of the upstream subscriptions that are open: at most one for
//! each address, shared by all who ask for that address.

use crate::addr::ConsoleAddr;
use vstd::prelude::*;
use vstd::string::StringExecFns;

verus! {

/// Whether no two entries carry the same address.
pub open spec fn addrs_differ<H>(entries: Seq<(ConsoleAddr, H)>) -> bool {
    forall|i: int, j: int|
        0 <= i < j < entries.len() ==> (#[trigger] entries[i]).0@ != (#[trigger] entries[j]).0@
}

/// The map that `entries` stand for: each address with the handle of the
/// first entry that carries it.
pub open spec fn handles_of<H>(entries: Seq<(ConsoleAddr, H)>) -> Map<(Seq<char>, Seq<char>), H> {
    Map::new(
        |k: (Seq<char>, Seq<char>)|
            exists|i: int| 0 <= i < entries.len() && (#[trigger] entries[i]).0@ == k,
        |k: (Seq<char>, Seq<char>)|
            entries[choose|i: int| 0 <= i < entries.len() && (#[trigger] entries[i]).0@ == k].1,
    )
}

/// Where addresses differ, every entry is found under its address.
pub proof fn lemma_handles_of_entries<H>(entries: Seq<(ConsoleAddr, H)>)
    requires
        addrs_differ(entries),
    ensures
        forall|i: int|
            0 <= i < entries.len() ==> handles_of(entries).contains_key(
                (#[trigger] entries[i]).0@,
            ) && handles_of(entries)[entries[i].0@] == entries[i].1,
{
    assert forall|i: int| 0 <= i < entries.len() implies handles_of(entries).contains_key(
        (#[trigger] entries[i]).0@,
    ) && handles_of(entries)[entries[i].0@] == entries[i].1 by {
        let k = entries[i].0@;
        let j = choose|j: int| 0 <= j < entries.len() && (#[trigger] entries[j]).0@ == k;
        assert(j == i);
    }
}

/// The open subscriptions, each under the address it was asked for. The
/// addresses are compared as written: `6669` and `06669` are two ports.
pub struct Subscriptions<H> {
    entries: Vec<(ConsoleAddr, H)>,
}

impl<H> View for Subscriptions<H> {
    type V = Map<(Seq<char>, Seq<char>), H>;

    closed spec fn view(&self) -> Map<(Seq<char>, Seq<char>), H> {
        handles_of(self.entries@)
    }
}

/// The table after a caller brought the handle of a connection it opened
/// for `addr`: the handle is taken where the address had none, and the
/// table stays as it is where another caller was first.
pub open spec fn offered<H>(
    table: Map<(Seq<char>, Seq<char>), H>,
    addr: (Seq<char>, Seq<char>),
    handle: H,
) -> Map<(Seq<char>, Seq<char>), H> {
    if table.contains_key(addr) {
        table
    } else {
        table.insert(addr, handle)
    }
}

/// The text of the endpoint to connect to for `addr`.
pub open spec fn endpoint_text(addr: (Seq<char>, Seq<char>)) -> Seq<char> {
    "http://"@ + addr.0 + ":"@ + addr.1
}

/// The text of the endpoint to connect to for `addr`.
pub fn endpoint(addr: &ConsoleAddr) -> (r: String)
    ensures
        r@ == endpoint_text(addr@),
{
    let mut s = "http://".to_owned();
    s.append(addr.ip.as_str());
    s.append(":");
    s.append(addr.port.as_str());
    s
}

/// What a caller who asks for an address does first.
pub enum Subscribe<'a, H> {
    /// A subscription is open: use its handle.
    Reuse(&'a H),
    /// None is open: connect to this endpoint.
    Connect(String),
}

fn same_addr(a: &ConsoleAddr, b: &ConsoleAddr) -> (r: bool)
    ensures
        r == (a@ == b@),
{
    a.ip == b.ip && a.port == b.port
}

impl<H> Subscriptions<H> {
    #[verifier::type_invariant]
    spec fn distinct(self) -> bool {
        addrs_differ(self.entries@)
    }

    /// A table without subscriptions.
    pub fn new() -> (r: Self)
        ensures
            r@ == Map::<(Seq<char>, Seq<char>), H>::empty(),
    {
        let r = Subscriptions { entries: Vec::new() };
        assert(r@ =~= Map::<(Seq<char>, Seq<char>), H>::empty());
        r
    }

    /// The number of open subscriptions.
    pub fn len(&self) -> (n: usize)
        ensures
            n == self@.len(),
            self@.dom().finite(),
    {
        proof {
            use_type_invariant(self);
            lemma_handles_len(self.entries@);
        }
        self.entries.len()
    }

    fn position(entries: &Vec<(ConsoleAddr, H)>, addr: &ConsoleAddr) -> (r: Option<usize>)
        ensures
            match r {
                Some(i) => i < entries.len() && entries@[i as int].0@ == addr@,
                None => forall|j: int| 0 <= j < entries.len()
                    ==> (#[trigger] entries@[j]).0@ != addr@,
            },
    {
        let mut i: usize = 0;
        while i < entries.len()
            invariant
                i <= entries.len(),
                forall|j: int| 0 <= j < i ==> (#[trigger] entries@[j]).0@ != addr@,
            decreases entries.len() - i,
        {
            if same_addr(&entries[i].0, addr) {
                return Some(i);
            }
            i += 1;
        }
        None
    }

    /// The handle of the subscription for `addr`, if one is open.
    pub fn get(&self, addr: &ConsoleAddr) -> (r: Option<&H>)
        ensures
            r is Some <==> self@.contains_key(addr@),
            r matches Some(h) ==> *h == self@[addr@],
    {
        proof {
            use_type_invariant(self);
            lemma_handles_of_entries(self.entries@);
        }
        match Self::position(&self.entries, addr) {
            Some(i) => Some(&self.entries[i].1),
            None => None,
        }
    }

    /// What a caller who asks for `addr` does first: use the open
    /// subscription, or connect to the endpoint of the address.
    pub fn begin(&self, addr: &ConsoleAddr) -> (r: Subscribe<'_, H>)
        ensures
            match r {
                Subscribe::Reuse(h) => self@.contains_key(addr@) && *h == self@[addr@],
                Subscribe::Connect(to) => !self@.contains_key(addr@) && to@ == endpoint_text(
                    addr@,
                ),
            },
    {
        match self.get(addr) {
            Some(h) => Subscribe::Reuse(h),
            None => Subscribe::Connect(endpoint(addr)),
        }
    }

    /// Takes the handle of a connection that a caller opened for `addr`,
    /// unless another caller was first. Tells whether the handle was
    /// taken: where it was not, it is dropped here and was never handed
    /// out.
    pub fn offer(&mut self, addr: ConsoleAddr, handle: H) -> (won: bool)
        ensures
            won == !old(self)@.contains_key(addr@),
            final(self)@ == offered(old(self)@, addr@, handle),
    {
        proof {
            use_type_invariant(&*self);
            lemma_handles_of_entries(self.entries@);
        }
        let ghost before = self.entries@;
        let mut entries: Vec<(ConsoleAddr, H)> = Vec::new();
        std::mem::swap(&mut self.entries, &mut entries);
        let won = match Self::position(&entries, &addr) {
            Some(_) => false,
            None => {
                entries.push((addr, handle));
                proof {
                    lemma_pushed(before, entries@);
                }
                true
            },
        };
        std::mem::swap(&mut self.entries, &mut entries);
        won
    }

    /// Closes the subscription for `addr`: the next caller for this
    /// address finds none and connects anew.
    pub fn remove(&mut self, addr: &ConsoleAddr) -> (r: Option<H>)
        ensures
            final(self)@ == old(self)@.remove(addr@),
            r is Some <==> old(self)@.contains_key(addr@),
            r matches Some(h) ==> h == old(self)@[addr@],
    {
        proof {
            use_type_invariant(&*self);
            lemma_handles_of_entries(self.entries@);
        }
        let ghost before = self.entries@;
        let mut entries: Vec<(ConsoleAddr, H)> = Vec::new();
        std::mem::swap(&mut self.entries, &mut entries);
        let r = match Self::position(&entries, addr) {
            Some(i) => {
                let entry = entries.remove(i);
                proof {
                    lemma_removed(before, i as int);
                }
                Some(entry.1)
            },
            None => {
                assert(handles_of(before) =~= handles_of(before).remove(addr@));
                None
            },
        };
        std::mem::swap(&mut self.entries, &mut entries);
        r
    }
}

/// An entry with an address that no entry carries, put at the end, keeps
/// the addresses apart and adds the entry to the map.
proof fn lemma_pushed<H>(before: Seq<(ConsoleAddr, H)>, after: Seq<(ConsoleAddr, H)>)
    requires
        addrs_differ(before),
        after.len() == before.len() + 1,
        after == before.push(after.last()),
        forall|j: int| 0 <= j < before.len() ==> (#[trigger] before[j]).0@ != after.last().0@,
    ensures
        addrs_differ(after),
        handles_of(after) == handles_of(before).insert(after.last().0@, after.last().1),
{
    let k = after.last().0@;
    let wanted = handles_of(before).insert(k, after.last().1);
    assert forall|i: int, j: int| 0 <= i < j < after.len() implies (#[trigger] after[i]).0@ != (
    #[trigger] after[j]).0@ by {
        assert(after[i] == before[i]);
        if j < before.len() {
            assert(after[j] == before[j]);
        }
    }
    lemma_handles_of_entries(before);
    lemma_handles_of_entries(after);
    assert forall|q: (Seq<char>, Seq<char>)| handles_of(after).contains_key(q) implies #[trigger]
        wanted.contains_key(q) && handles_of(after)[q] == wanted[q] by {
        let j = choose|j: int| 0 <= j < after.len() && (#[trigger] after[j]).0@ == q;
        if j < before.len() {
            assert(after[j] == before[j]);
        }
    }
    assert forall|q: (Seq<char>, Seq<char>)| #[trigger] wanted.contains_key(q) implies handles_of(
        after,
    ).contains_key(q) by {
        if q == k {
            assert(after[after.len() - 1].0@ == q);
        } else {
            let j = choose|j: int| 0 <= j < before.len() && (#[trigger] before[j]).0@ == q;
            assert(after[j] == before[j]);
        }
    }
    assert(handles_of(after) =~= wanted);
}

/// Taking an entry out keeps the addresses apart and takes the entry's
/// address out of the map.
proof fn lemma_removed<H>(before: Seq<(ConsoleAddr, H)>, i: int)
    requires
        addrs_differ(before),
        0 <= i < before.len(),
    ensures
        addrs_differ(before.remove(i)),
        handles_of(before.remove(i)) == handles_of(before).remove(before[i].0@),
{
    let after = before.remove(i);
    let wanted = handles_of(before).remove(before[i].0@);
    assert forall|a: int, b: int| 0 <= a < b < after.len() implies (#[trigger] after[a]).0@ != (
    #[trigger] after[b]).0@ by {
        let x = if a < i { a } else { a + 1 };
        let y = if b < i { b } else { b + 1 };
        assert(after[a] == before[x] && after[b] == before[y]);
    }
    lemma_handles_of_entries(before);
    lemma_handles_of_entries(after);
    assert forall|q: (Seq<char>, Seq<char>)| handles_of(after).contains_key(q) implies #[trigger]
        wanted.contains_key(q) && handles_of(after)[q] == wanted[q] by {
        let j = choose|j: int| 0 <= j < after.len() && (#[trigger] after[j]).0@ == q;
        let x = if j < i { j } else { j + 1 };
        assert(after[j] == before[x]);
        if x < i {
            assert(before[x].0@ != before[i].0@);
        } else {
            assert(before[i].0@ != before[x].0@);
        }
    }
    assert forall|q: (Seq<char>, Seq<char>)| #[trigger] wanted.contains_key(q) implies handles_of(
        after,
    ).contains_key(q) by {
        let j = choose|j: int| 0 <= j < before.len() && (#[trigger] before[j]).0@ == q;
        if j < i {
            assert(after[j] == before[j]);
        } else {
            assert(after[j - 1] == before[j]);
        }
    }
    assert(handles_of(after) =~= wanted);
}

/// Where addresses differ, the map has as many keys as there are entries.
pub proof fn lemma_handles_len<H>(entries: Seq<(ConsoleAddr, H)>)
    requires
        addrs_differ(entries),
    ensures
        handles_of(entries).dom().finite(),
        handles_of(entries).len() == entries.len(),
    decreases entries.len(),
{
    if entries.len() == 0 {
        assert(handles_of(entries).dom() =~= Set::empty());
    } else {
        let front = entries.drop_last();
        let last = entries.last();
        assert forall|i: int, j: int| 0 <= i < j < front.len() implies (#[trigger] front[i]).0@ != (
        #[trigger] front[j]).0@ by {
            assert(front[i] == entries[i] && front[j] == entries[j]);
        }
        lemma_handles_len(front);
        assert(!handles_of(front).dom().contains(last.0@)) by {
            if handles_of(front).dom().contains(last.0@) {
                let j = choose|j: int| 0 <= j < front.len() && (#[trigger] front[j]).0@ == last.0@;
                assert(entries[j] == front[j]);
                assert(entries[j].0@ != entries[entries.len() - 1].0@);
            }
        }
        assert(handles_of(entries).dom() =~= handles_of(front).dom().insert(last.0@)) by {
            assert forall|q: (Seq<char>, Seq<char>)|
                handles_of(entries).dom().contains(q) implies handles_of(front).dom().insert(
                last.0@,
            ).contains(q) by {
                let j = choose|j: int| 0 <= j < entries.len() && (#[trigger] entries[j]).0@ == q;
                if j < front.len() {
                    assert(front[j] == entries[j]);
                }
            }
            assert forall|q: (Seq<char>, Seq<char>)|
                handles_of(front).dom().insert(last.0@).contains(q) implies handles_of(
                entries,
            ).dom().contains(q) by {
                if q == last.0@ {
                    assert(entries[entries.len() - 1].0@ == q);
                } else {
                    let j = choose|j: int| 0 <= j < front.len() && (#[trigger] front[j]).0@ == q;
                    assert(entries[j] == front[j]);
                }
            }
        }
    }
}

/// The table after several callers, one after the other, each brought the
/// handle of a connection it opened for `addr`.
pub open spec fn offered_all<H>(
    table: Map<(Seq<char>, Seq<char>), H>,
    addr: (Seq<char>, Seq<char>),
    handles: Seq<H>,
) -> Map<(Seq<char>, Seq<char>), H>
    decreases handles.len(),
{
    if handles.len() == 0 {
        table
    } else {
        offered(offered_all(table, addr, handles.drop_last()), addr, handles.last())
    }
}

/// However many callers open a connection for one address at the same
/// time, the table takes the handle of the first to bring it and of no
/// other: every caller then finds that one handle, and the rest of the
/// table is untouched. Where the address had a handle before, none is
/// taken.
pub proof fn lemma_one_subscription_per_addr<H>(
    table: Map<(Seq<char>, Seq<char>), H>,
    addr: (Seq<char>, Seq<char>),
    handles: Seq<H>,
)
    ensures
        table.contains_key(addr) ==> offered_all(table, addr, handles) == table,
        !table.contains_key(addr) && handles.len() > 0 ==> offered_all(table, addr, handles)
            == table.insert(addr, handles[0]),
    decreases handles.len(),
{
    if handles.len() > 0 {
        lemma_one_subscription_per_addr(table, addr, handles.drop_last());
        if handles.len() > 1 {
            assert(handles.drop_last()[0] == handles[0]);
        } else {
            assert(offered_all(table, addr, handles.drop_last()) == table);
            assert(handles.last() == handles[0]);
        }
    }
}

/// Once a subscription is closed, its address has no handle, so that the
/// next caller connects anew and its handle is the one that is taken.
pub proof fn lemma_closed_subscription_reopens<H>(
    table: Map<(Seq<char>, Seq<char>), H>,
    addr: (Seq<char>, Seq<char>),
    handle: H,
)
    ensures
        !table.remove(addr).contains_key(addr),
        offered(table.remove(addr), addr, handle) == table.insert(addr, handle),
{
    assert(table.remove(addr).insert(addr, handle) =~= table.insert(addr, handle));
}

/// Two addresses that differ in how they are written are two keys of the
/// table, whatever they may resolve to.
pub proof fn lemma_spellings_are_addresses<H>(
    table: Map<(Seq<char>, Seq<char>), H>,
    one: (Seq<char>, Seq<char>),
    other: (Seq<char>, Seq<char>),
    handle: H,
)
    requires
        one != other,
        !table.contains_key(other),
    ensures
        !offered(table, one, handle).contains_key(other),
{
}

} // verus!
