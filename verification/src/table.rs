//! The per-application routing table: resolution of missing addresses at
//! load time, and classification of a packet by the address pair it carries.

use vstd::prelude::*;

verus! {

/// One raw routing-table entry, as configuration delivers it.  A missing
/// `phony` or `origin` is filled in by [`AddressTable::resolve`].
pub struct Application {
    /// Opaque label; not consulted by the engine.
    pub name: String,
    /// The real remote peer address.
    pub dest: u32,
    /// The fabricated local address, when set explicitly.
    pub phony: Option<u32>,
    /// The real local address, when set explicitly.
    pub origin: Option<u32>,
    /// Optional port allow-list; carried through but not enforced by the
    /// rewrite path.
    pub ports: Option<Vec<u16>>,
    /// Free-form status byte; not consulted by the engine.
    pub state: u8,
}

/// A fully resolved routing-table entry.
pub struct ResolvedApp {
    /// Opaque label; not consulted by the engine.
    pub name: String,
    /// The real remote peer address.
    pub dest: u32,
    /// The fabricated local address.
    pub phony: u32,
    /// The real local address.
    pub origin: u32,
    /// Optional port allow-list; carried through but not enforced.
    pub ports: Option<Vec<u16>>,
    /// Free-form status byte; not consulted by the engine.
    pub state: u8,
}

/// Which way a classified packet travels.
#[derive(Debug, Clone, Copy, PartialEq, Eq, Structural)]
pub enum Direction {
    /// From the local origin toward the peer; carried as origin to phony.
    Outbound,
    /// Returning from the peer; carried as dest to phony.
    Inbound,
}

/// Why a configuration was rejected.
#[derive(Debug, Clone, Copy, PartialEq, Eq, Structural)]
pub enum ConfigError {
    /// More worker threads requested than the engine allows.
    ThreadLimitExceeded,
    /// A default phony address would fall past the end of the last octet.
    PhonyRangeExhausted,
    /// Two entries would classify the same packet.
    DuplicateMapping,
}

/// The default phony address for table position `pos`: the first three
/// octets of `address` with `start + pos` as the last octet.
pub open spec fn default_phony(address: u32, start: u8, pos: int) -> int {
    (address as int) - (address as int) % 256 + (start as int) + pos
}

/// Whether every entry with an unset phony can be given its default without
/// running past the last octet.
pub open spec fn phony_range_ok(entries: Seq<Application>, start: u8, count: int) -> bool {
    forall|pos: int|
        0 <= pos < count && entries[pos].phony is None ==> (start as int) + pos <= 255
}

/// The resolved form of one entry.
pub open spec fn spec_resolve_app(
    a: Application,
    global_origin: u32,
    address: u32,
    start: u8,
    pos: int,
) -> ResolvedApp {
    ResolvedApp {
        name: a.name,
        dest: a.dest,
        phony: match a.phony {
            Some(p) => p,
            None => default_phony(address, start, pos) as u32,
        },
        origin: match a.origin {
            Some(o) => o,
            None => global_origin,
        },
        ports: a.ports,
        state: a.state,
    }
}

/// Phony addresses are unique across the table.  Because the phony takes
/// part in both match pairs, this makes the `(origin, phony)` pairs and the
/// `(phony, dest)` pairs pairwise distinct as well: no two entries classify
/// the same packet.
pub open spec fn phonies_unique(s: Seq<ResolvedApp>) -> bool {
    forall|i: int, j: int| 0 <= i < j < s.len() ==> s[i].phony != s[j].phony
}

/// How entry `a` classifies a packet with the given source and destination
/// addresses, if it does.  An entry whose origin equals its dest prefers the
/// outbound reading.
pub open spec fn app_matches(a: ResolvedApp, src: int, dst: int) -> Option<Direction> {
    if a.origin as int == src && a.phony as int == dst {
        Some(Direction::Outbound)
    } else if a.dest as int == src && a.phony as int == dst {
        Some(Direction::Inbound)
    } else {
        None
    }
}

/// First match at or after position `i`.
pub open spec fn lookup_from(s: Seq<ResolvedApp>, src: int, dst: int, i: int) -> Option<
    (int, Direction),
>
    decreases s.len() - i,
{
    if i < 0 || i >= s.len() {
        None
    } else {
        match app_matches(s[i], src, dst) {
            Some(d) => Some((i, d)),
            None => lookup_from(s, src, dst, i + 1),
        }
    }
}

/// First entry that classifies the packet, with its direction.
pub open spec fn spec_lookup(s: Seq<ResolvedApp>, src: int, dst: int) -> Option<(int, Direction)> {
    lookup_from(s, src, dst, 0)
}

/// A successful lookup names an entry that matches, and none before it does.
pub proof fn lemma_lookup_some(s: Seq<ResolvedApp>, src: int, dst: int, i: int, d: Direction)
    requires
        spec_lookup(s, src, dst) == Some((i, d)),
    ensures
        0 <= i < s.len(),
        app_matches(s[i], src, dst) == Some(d),
        forall|k: int| 0 <= k < i ==> app_matches(s[k], src, dst) is None,
{
    lemma_lookup_from_some(s, src, dst, 0, i, d);
}

proof fn lemma_lookup_from_some(
    s: Seq<ResolvedApp>,
    src: int,
    dst: int,
    start: int,
    i: int,
    d: Direction,
)
    requires
        0 <= start,
        lookup_from(s, src, dst, start) == Some((i, d)),
    ensures
        start <= i < s.len(),
        app_matches(s[i], src, dst) == Some(d),
        forall|k: int| start <= k < i ==> app_matches(s[k], src, dst) is None,
    decreases s.len() - start,
{
    if start < s.len() && app_matches(s[start], src, dst) is None {
        lemma_lookup_from_some(s, src, dst, start + 1, i, d);
    }
}

/// A failed lookup means no entry matches.
pub proof fn lemma_lookup_none(s: Seq<ResolvedApp>, src: int, dst: int)
    requires
        spec_lookup(s, src, dst) is None,
    ensures
        forall|k: int| 0 <= k < s.len() ==> app_matches(s[k], src, dst) is None,
{
    lemma_lookup_from_none(s, src, dst, 0);
}

proof fn lemma_lookup_from_none(s: Seq<ResolvedApp>, src: int, dst: int, start: int)
    requires
        0 <= start,
        lookup_from(s, src, dst, start) is None,
    ensures
        forall|k: int| start <= k < s.len() ==> app_matches(s[k], src, dst) is None,
    decreases s.len() - start,
{
    if start < s.len() {
        lemma_lookup_from_none(s, src, dst, start + 1);
    }
}

/// Under unique phonies, at most one entry classifies a packet: the one a
/// lookup finds.
pub proof fn lemma_lookup_unique(s: Seq<ResolvedApp>, src: int, dst: int, i: int, d: Direction)
    requires
        phonies_unique(s),
        spec_lookup(s, src, dst) == Some((i, d)),
    ensures
        forall|k: int|
            0 <= k < s.len() && k != i ==> app_matches(s[k], src, dst) is None,
{
    lemma_lookup_some(s, src, dst, i, d);
    assert forall|k: int| 0 <= k < s.len() && k != i implies app_matches(
        s[k],
        src,
        dst,
    ) is None by {
        if app_matches(s[k], src, dst) is Some {
            assert(s[k].phony == dst && s[i].phony == dst);
        }
    }
}

/// The resolved, insertion-ordered routing table.  Once built it is only
/// read; phonies are unique, so classification is unambiguous.
pub struct AddressTable {
    entries: Vec<ResolvedApp>,
}

impl View for AddressTable {
    type V = Seq<ResolvedApp>;

    closed spec fn view(&self) -> Seq<ResolvedApp> {
        self.entries@
    }
}

impl AddressTable {
    /// The table invariant: unique phony addresses.
    pub open spec fn wf(&self) -> bool {
        phonies_unique(self@)
    }

    /// Number of entries.
    pub fn len(&self) -> (n: usize)
        ensures
            n == self@.len(),
    {
        self.entries.len()
    }

    /// The entry at `i`.
    pub fn entry(&self, i: usize) -> (a: &ResolvedApp)
        requires
            i < self@.len(),
        ensures
            *a == self@[i as int],
    {
        &self.entries[i]
    }

    /// Builds the table from raw entries: an unset `origin` becomes
    /// `global_origin`, an unset `phony` becomes the default for the entry's
    /// position.  Fails when a default phony would run past the last octet,
    /// or when two entries end up with the same phony and so would classify
    /// the same packet.
    pub fn resolve(
        entries: Vec<Application>,
        global_origin: u32,
        address: u32,
        phony_range_start: u8,
    ) -> (r: Result<AddressTable, ConfigError>)
        ensures
            r matches Ok(t) ==> {
                &&& t.wf()
                &&& t@.len() == entries@.len()
                &&& forall|i: int|
                    0 <= i < entries@.len() ==> t@[i] == spec_resolve_app(
                        entries@[i],
                        global_origin,
                        address,
                        phony_range_start,
                        i,
                    )
            },
            r is Ok <==> phony_range_ok(entries@, phony_range_start, entries@.len() as int)
                && phonies_unique(
                Seq::new(
                    entries@.len(),
                    |i: int|
                        spec_resolve_app(entries@[i], global_origin, address, phony_range_start, i),
                ),
            ),
            r == Result::<AddressTable, ConfigError>::Err(ConfigError::PhonyRangeExhausted)
                <==> !phony_range_ok(entries@, phony_range_start, entries@.len() as int),
            r is Err && phony_range_ok(entries@, phony_range_start, entries@.len() as int) ==> r
                == Result::<AddressTable, ConfigError>::Err(ConfigError::DuplicateMapping),
    {
        let ghost resolved_view = Seq::new(
            entries@.len(),
            |i: int| spec_resolve_app(entries@[i], global_origin, address, phony_range_start, i),
        );
        let n = entries.len();
        let prefix = address - address % 256;
        let mut remaining = entries;
        let mut resolved: Vec<ResolvedApp> = Vec::new();
        let mut pos: usize = 0;
        while pos < n
            invariant
                pos == resolved.len(),
                pos <= n,
                n == entries@.len(),
                remaining@ == entries@.skip(pos as int),
                prefix == (address as int) - (address as int) % 256,
                resolved_view == Seq::new(
                    entries@.len(),
                    |i: int|
                        spec_resolve_app(entries@[i], global_origin, address, phony_range_start, i),
                ),
                forall|i: int| 0 <= i < pos ==> resolved@[i] == resolved_view[i],
                phony_range_ok(entries@, phony_range_start, pos as int),
            decreases n - pos,
        {
            let entry = remaining.remove(0);
            proof {
                assert(entry == entries@[pos as int]);
                assert(remaining@ =~= entries@.skip(pos + 1));
            }
            let phony = match entry.phony {
                Some(p) => p,
                None => {
                    if pos > (255 - phony_range_start) as usize {
                        return Err(ConfigError::PhonyRangeExhausted);
                    }
                    prefix + phony_range_start as u32 + pos as u32
                },
            };
            let origin = match entry.origin {
                Some(o) => o,
                None => global_origin,
            };
            resolved.push(
                ResolvedApp {
                    name: entry.name,
                    dest: entry.dest,
                    phony,
                    origin,
                    ports: entry.ports,
                    state: entry.state,
                },
            );
            pos = pos + 1;
        }
        let mut i: usize = 0;
        while i < n
            invariant
                i <= n,
                n == resolved.len(),
                n == entries@.len(),
                phony_range_ok(entries@, phony_range_start, n as int),
                resolved_view == Seq::new(
                    entries@.len(),
                    |i: int|
                        spec_resolve_app(entries@[i], global_origin, address, phony_range_start, i),
                ),
                forall|k: int| 0 <= k < n ==> resolved@[k] == resolved_view[k],
                forall|a: int, b: int|
                    0 <= a < i && a < b < n ==> resolved@[a].phony != resolved@[b].phony,
            decreases n - i,
        {
            let mut j: usize = i + 1;
            while j < n
                invariant
                    i < j,
                    j <= n || j == i + 1,
                    n == resolved.len(),
                    n == entries@.len(),
                    phony_range_ok(entries@, phony_range_start, n as int),
                    resolved_view == Seq::new(
                        entries@.len(),
                        |i: int|
                            spec_resolve_app(
                                entries@[i],
                                global_origin,
                                address,
                                phony_range_start,
                                i,
                            ),
                    ),
                    forall|k: int| 0 <= k < n ==> resolved@[k] == resolved_view[k],
                    forall|b: int| i < b < j ==> resolved@[i as int].phony != resolved@[b].phony,
                decreases n - j,
            {
                if resolved[i].phony == resolved[j].phony {
                    proof {
                        assert(resolved_view[i as int].phony == resolved_view[j as int].phony);
                        assert(!phonies_unique(resolved_view));
                    }
                    return Err(ConfigError::DuplicateMapping);
                }
                j = j + 1;
            }
            i = i + 1;
        }
        proof {
            assert(resolved@ =~= resolved_view);
        }
        Ok(AddressTable { entries: resolved })
    }

    /// Classifies a packet by its source and destination addresses: the
    /// first entry whose match pair fits, with the direction it implies.
    pub fn lookup(&self, src: u32, dst: u32) -> (r: Option<(usize, Direction)>)
        ensures
            match r {
                Some((i, d)) => spec_lookup(self@, src as int, dst as int) == Some((i as int, d)),
                None => spec_lookup(self@, src as int, dst as int) is None,
            },
    {
        let n = self.entries.len();
        let mut i: usize = 0;
        while i < n
            invariant
                i <= n,
                n == self@.len(),
                lookup_from(self@, src as int, dst as int, 0) == lookup_from(
                    self@,
                    src as int,
                    dst as int,
                    i as int,
                ),
            decreases n - i,
        {
            let e = &self.entries[i];
            if e.origin == src && e.phony == dst {
                return Some((i, Direction::Outbound));
            }
            if e.dest == src && e.phony == dst {
                return Some((i, Direction::Inbound));
            }
            i = i + 1;
        }
        None
    }
}

/// A loaded configuration, before resolution.
pub struct ConfigFile {
    /// Interface name.
    pub name: String,
    /// Worker thread count; at most [`MAX_WORKER_THREADS`].
    pub num_threads: usize,
    /// Default origin address for entries that set none.
    pub origin: u32,
    /// Interface address; its first three octets prefix default phonies.
    pub address: u32,
    /// Interface netmask.
    pub subnet_mask: u32,
    /// Interface MTU.
    pub mtu: u16,
    /// First last-octet value for default phonies; one past the interface
    /// address's last octet when unset.
    pub phony_range_start: Option<u8>,
    /// The raw routing table.
    pub applications: Vec<Application>,
}

/// A fully resolved configuration: plain interface parameters and the
/// routing table with every address filled in and checked.
pub struct ResolvedConfig {
    /// Interface name.
    pub name: String,
    /// Worker thread count.
    pub num_threads: usize,
    /// Default origin address.
    pub origin: u32,
    /// Interface address.
    pub address: u32,
    /// Interface netmask.
    pub subnet_mask: u32,
    /// Interface MTU.
    pub mtu: u16,
    /// The last-octet value default phonies start from.
    pub phony_range_start: u8,
    /// The resolved routing table.
    pub table: AddressTable,
}

/// The most worker threads a configuration may ask for.
pub const MAX_WORKER_THREADS: usize = 128;

/// The last-octet value default phonies start from: the configured one, or
/// one past the interface address's last octet.
pub open spec fn effective_range_start(c: ConfigFile) -> int {
    match c.phony_range_start {
        Some(s) => s as int,
        None => (c.address as int) % 256 + 1,
    }
}

/// Checks a loaded configuration and resolves its routing table.
///
/// Fails when more threads are requested than allowed, when the default
/// phony range cannot start past the interface address's last octet or
/// would run past the end of the octet, or when two entries would classify
/// the same packet.  On success every field is carried over and the table
/// is the resolution of the raw entries.
pub fn resolve_config(c: ConfigFile) -> (r: Result<ResolvedConfig, ConfigError>)
    ensures
        r == Result::<ResolvedConfig, ConfigError>::Err(ConfigError::ThreadLimitExceeded) <==> c.num_threads
            > MAX_WORKER_THREADS,
        c.num_threads <= MAX_WORKER_THREADS ==> (r == Result::<ResolvedConfig, ConfigError>::Err(
            ConfigError::PhonyRangeExhausted,
        ) <==> effective_range_start(c) > 255 || !phony_range_ok(
            c.applications@,
            effective_range_start(c) as u8,
            c.applications@.len() as int,
        )),
        c.num_threads <= MAX_WORKER_THREADS && effective_range_start(c) <= 255 ==> (r is Ok
            <==> phony_range_ok(
            c.applications@,
            effective_range_start(c) as u8,
            c.applications@.len() as int,
        ) && phonies_unique(
            Seq::new(
                c.applications@.len(),
                |i: int|
                    spec_resolve_app(
                        c.applications@[i],
                        c.origin,
                        c.address,
                        effective_range_start(c) as u8,
                        i,
                    ),
            ),
        )),
        r matches Ok(rc) ==> {
            &&& rc.name == c.name
            &&& rc.num_threads == c.num_threads
            &&& rc.origin == c.origin
            &&& rc.address == c.address
            &&& rc.subnet_mask == c.subnet_mask
            &&& rc.mtu == c.mtu
            &&& rc.phony_range_start as int == effective_range_start(c)
            &&& rc.table.wf()
            &&& rc.table@.len() == c.applications@.len()
            &&& forall|i: int|
                0 <= i < c.applications@.len() ==> rc.table@[i] == spec_resolve_app(
                    c.applications@[i],
                    c.origin,
                    c.address,
                    rc.phony_range_start,
                    i,
                )
        },
{
    if c.num_threads > MAX_WORKER_THREADS {
        return Err(ConfigError::ThreadLimitExceeded);
    }
    let start: u8 = match c.phony_range_start {
        Some(s) => s,
        None => {
            let last = (c.address % 256) as u8;
            if last == 255 {
                return Err(ConfigError::PhonyRangeExhausted);
            }
            last + 1
        },
    };
    let table = match AddressTable::resolve(c.applications, c.origin, c.address, start) {
        Ok(t) => t,
        Err(e) => {
            return Err(e);
        },
    };
    Ok(
        ResolvedConfig {
            name: c.name,
            num_threads: c.num_threads,
            origin: c.origin,
            address: c.address,
            subnet_mask: c.subnet_mask,
            mtu: c.mtu,
            phony_range_start: start,
            table,
        },
    )
}

} // verus!
