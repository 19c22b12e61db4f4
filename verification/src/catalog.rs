//! The catalog of discovered binaries: a mapping from version to binary,
//! built per search location and merged across locations in priority order.

use vstd::prelude::*;
use crate::version::{PhpVersion, PhpServerSapi, spec_version_le, version_lt};
use crate::binary::{
    PhpBinary, BinView, spec_sapi_path, spec_with_sapi, spec_bin_add_if_absent, spec_bin_empty,
    spec_bin_merge, spec_bin_absorbs, spec_preferred_path,
};
use crate::report::{spec_parse_version_output, parse_version_and_mode};

verus! {

/// A mapping from version to discovered binary, held as a vector of entries
/// with pairwise distinct versions.
#[verifier::ext_equal]
pub struct RuntimeCatalog {
    pub entries: Vec<PhpBinary>,
}

/// Pairwise distinct versions.
pub open spec fn spec_entries_wf(s: Seq<PhpBinary>) -> bool {
    forall|i: int, j: int| 0 <= i < j < s.len() ==> s[i]@.version != s[j]@.version
}

/// The mapping a sequence of entries stands for.
pub open spec fn spec_entries_map(s: Seq<PhpBinary>) -> Map<PhpVersion, BinView>
    decreases s.len(),
{
    if s.len() == 0 {
        Map::empty()
    } else {
        spec_entries_map(s.drop_last()).insert(s.last()@.version, s.last()@)
    }
}

impl RuntimeCatalog {
    pub open spec fn wf(self) -> bool {
        spec_entries_wf(self.entries@)
    }

    /// What this catalog means: the mapping from version to binary contents.
    pub open spec fn as_map(self) -> Map<PhpVersion, BinView> {
        spec_entries_map(self.entries@)
    }

    pub fn new() -> (c: RuntimeCatalog)
        ensures
            c.wf(),
            c.as_map() == Map::<PhpVersion, BinView>::empty(),
            c.entries@.len() == 0,
    {
        RuntimeCatalog { entries: Vec::new() }
    }

    fn find_index(&self, version: &PhpVersion) -> (r: Option<usize>)
        ensures
            match r {
                Some(i) => i < self.entries@.len() && self.entries@[i as int]@.version == *version,
                None => forall|i: int|
                    0 <= i < self.entries@.len() ==> self.entries@[i]@.version != *version,
            },
    {
        let mut i: usize = 0;
        while i < self.entries.len()
            invariant
                i <= self.entries@.len(),
                forall|k: int| 0 <= k < i ==> self.entries@[k]@.version != *version,
            decreases self.entries@.len() - i,
        {
            let v = self.entries[i].version();
            if v.major == version.major && v.minor == version.minor && v.patch == version.patch {
                return Some(i);
            }
            i = i + 1;
        }
        None
    }

    /// The number of versions the catalog holds.
    pub fn len(&self) -> (r: usize)
        requires
            self.wf(),
        ensures
            r == self.entries@.len(),
            r == self.as_map().len(),
    {
        proof {
            lemma_entries_map_len(self.entries@);
        }
        self.entries.len()
    }

    /// The binary recorded for a version.
    pub fn get(&self, version: &PhpVersion) -> (r: Option<&PhpBinary>)
        requires
            self.wf(),
        ensures
            match r {
                Some(b) => self.as_map().contains_key(*version) && b@ == self.as_map()[*version],
                None => !self.as_map().contains_key(*version),
            },
    {
        match self.find_index(version) {
            Some(i) => {
                proof {
                    lemma_entries_map_index(self.entries@, i as int);
                }
                Some(&self.entries[i])
            },
            None => {
                proof {
                    lemma_entries_map_contains(self.entries@, *version);
                }
                None
            },
        }
    }
}

pub proof fn lemma_entries_map_contains(s: Seq<PhpBinary>, v: PhpVersion)
    ensures
        spec_entries_map(s).contains_key(v) <==> (exists|i: int|
            0 <= i < s.len() && (#[trigger] s[i])@.version == v),
    decreases s.len(),
{
    if s.len() > 0 {
        lemma_entries_map_contains(s.drop_last(), v);
        if s.last()@.version == v {
            assert(s[s.len() - 1]@.version == v);
        } else if spec_entries_map(s).contains_key(v) {
            let i = choose|i: int| 0 <= i < s.drop_last().len() && (#[trigger] s.drop_last()[i])@.version == v;
            assert(s[i]@.version == v);
        } else if exists|i: int| 0 <= i < s.len() && (#[trigger] s[i])@.version == v {
            let i = choose|i: int| 0 <= i < s.len() && (#[trigger] s[i])@.version == v;
            assert(i < s.len() - 1);
            assert(s.drop_last()[i]@.version == v);
        }
    }
}

pub proof fn lemma_entries_map_index(s: Seq<PhpBinary>, i: int)
    requires
        spec_entries_wf(s),
        0 <= i < s.len(),
    ensures
        spec_entries_map(s).contains_key(s[i]@.version),
        spec_entries_map(s)[s[i]@.version] == s[i]@,
    decreases s.len(),
{
    if i == s.len() - 1 {
        assert(s.last() == s[i]);
    } else {
        assert(spec_entries_wf(s.drop_last())) by {
            assert(forall|a: int, b: int|
                0 <= a < b < s.drop_last().len() ==> s.drop_last()[a] == s[a] && s.drop_last()[b]
                    == s[b]);
        }
        assert(s.drop_last()[i] == s[i]);
        lemma_entries_map_index(s.drop_last(), i);
        assert(s.last()@.version != s[i]@.version);
    }
}

pub proof fn lemma_entries_map_len(s: Seq<PhpBinary>)
    requires
        spec_entries_wf(s),
    ensures
        spec_entries_map(s).len() == s.len(),
        spec_entries_map(s).dom().finite(),
    decreases s.len(),
{
    if s.len() > 0 {
        assert(spec_entries_wf(s.drop_last())) by {
            assert(forall|a: int, b: int|
                0 <= a < b < s.drop_last().len() ==> s.drop_last()[a] == s[a] && s.drop_last()[b]
                    == s[b]);
        }
        lemma_entries_map_len(s.drop_last());
        lemma_entries_map_contains(s.drop_last(), s.last()@.version);
        assert(!spec_entries_map(s.drop_last()).contains_key(s.last()@.version)) by {
            if exists|i: int|
                0 <= i < s.drop_last().len() && (#[trigger] s.drop_last()[i])@.version
                    == s.last()@.version {
                let i = choose|i: int|
                    0 <= i < s.drop_last().len() && (#[trigger] s.drop_last()[i])@.version
                        == s.last()@.version;
                assert(s[i]@.version == s[s.len() - 1]@.version);
            }
        }
    }
}

/// Updating one entry in place, keeping its version, updates the mapping at
/// that version alone.
proof fn lemma_entries_map_update(s: Seq<PhpBinary>, i: int, b: PhpBinary)
    requires
        spec_entries_wf(s),
        0 <= i < s.len(),
        s[i]@.version == b@.version,
    ensures
        spec_entries_map(s.update(i, b)) =~= spec_entries_map(s).insert(b@.version, b@),
        spec_entries_wf(s.update(i, b)),
    decreases s.len(),
{
    let t = s.update(i, b);
    assert(spec_entries_wf(t));
    if i == s.len() - 1 {
        assert(t.drop_last() =~= s.drop_last());
        assert(t.last() == b);
    } else {
        assert(spec_entries_wf(s.drop_last())) by {
            assert(forall|a: int, c: int|
                0 <= a < c < s.drop_last().len() ==> s.drop_last()[a] == s[a] && s.drop_last()[c]
                    == s[c]);
        }
        assert(t.drop_last() =~= s.drop_last().update(i, b));
        assert(t.last() == s.last());
        lemma_entries_map_update(s.drop_last(), i, b);
        assert(s.last()@.version != b@.version);
        assert(spec_entries_map(t) =~= spec_entries_map(s).insert(b@.version, b@)) by {
            assert(spec_entries_map(t) == spec_entries_map(t.drop_last()).insert(
                t.last()@.version,
                t.last()@,
            ));
        }
    }
}

/// Mode-wise union of two catalog mappings; on a shared version the left
/// side's recorded paths win, the right side only fills missing modes.
pub open spec fn spec_merge_maps(
    a: Map<PhpVersion, BinView>,
    b: Map<PhpVersion, BinView>,
) -> Map<PhpVersion, BinView> {
    Map::new(
        |v: PhpVersion| a.contains_key(v) || b.contains_key(v),
        |v: PhpVersion|
            if a.contains_key(v) {
                if b.contains_key(v) {
                    spec_bin_merge(a[v], b[v])
                } else {
                    a[v]
                }
            } else {
                b[v]
            },
    )
}

/// Every version and mode `b` offers, `a` already has.
pub open spec fn spec_map_absorbs(
    a: Map<PhpVersion, BinView>,
    b: Map<PhpVersion, BinView>,
) -> bool {
    forall|v: PhpVersion| #[trigger]
        b.contains_key(v) ==> a.contains_key(v) && spec_bin_absorbs(a[v], b[v])
}

/// Merges `from` into `into`: versions only `from` has are added whole;
/// for a shared version, only modes `into` lacks are filled in, so nothing
/// already recorded is ever dropped or overwritten. Merging a catalog that
/// is already absorbed leaves `into` exactly as it was.
pub fn merge_binaries(from: RuntimeCatalog, into: &mut RuntimeCatalog)
    requires
        from.wf(),
        old(into).wf(),
    ensures
        final (into).wf(),
        final (into).as_map() == spec_merge_maps(old(into).as_map(), from.as_map()),
        spec_map_absorbs(old(into).as_map(), from.as_map()) ==> final (into).entries@ == old(
            into,
        ).entries@,
{
    let n = from.entries.len();
    let mut i: usize = 0;
    while i < n
        invariant
            n == from.entries@.len(),
            from.wf(),
            old(into).wf(),
            into.wf(),
            i <= n,
            into.as_map() == spec_merge_maps(
                old(into).as_map(),
                spec_entries_map(from.entries@.take(i as int)),
            ),
            spec_map_absorbs(old(into).as_map(), from.as_map()) ==> into.entries@ == old(
                into,
            ).entries@,
        decreases n - i,
    {
        let ghost pre = from.entries@.take(i as int);
        let ghost post = from.entries@.take(i + 1);
        let ghost old_map = old(into).as_map();
        let ghost cur_map = into.as_map();
        let ghost cur_entries = into.entries@;
        proof {
            assert(post.drop_last() =~= pre);
            assert(post.last() == from.entries@[i as int]);
            assert(spec_entries_map(post) == spec_entries_map(pre).insert(
                from.entries@[i as int]@.version,
                from.entries@[i as int]@,
            ));
            lemma_entries_map_index(from.entries@, i as int);
            // this version is new to the processed prefix of `from`
            lemma_entries_map_contains(pre, from.entries@[i as int]@.version);
            assert(forall|k: int| 0 <= k < pre.len() ==> pre[k] == from.entries@[k]);
            assert(!spec_entries_map(pre).contains_key(from.entries@[i as int]@.version));
        }
        let b = from.entries[i].duplicate();
        let ver = b.version();
        let ghost fb = from.entries@[i as int]@;
        match into.find_index(&ver) {
            Some(j) => {
                proof {
                    lemma_entries_map_index(cur_entries, j as int);
                }
                let mut e = into.entries.remove(j);
                let ghost e0 = e;
                e.merge_with(b);
                let ghost e1 = e;
                into.entries.insert(j, e);
                proof {
                    assert(into.entries@ =~= cur_entries.update(j as int, e1));
                    lemma_entries_map_update(cur_entries, j as int, e1);
                    assert(into.as_map() =~= cur_map.insert(ver, spec_bin_merge(cur_map[ver], fb)));
                    // the version sits in the old side, not in the prefix
                    assert(old_map.contains_key(ver));
                    assert(cur_map[ver] == old_map[ver]);
                    assert(into.as_map() =~~= spec_merge_maps(old_map, spec_entries_map(post)));
                    if spec_map_absorbs(old_map, from.as_map()) {
                        assert(from.as_map().contains_key(ver) && from.as_map()[ver] == fb);
                        assert(spec_bin_absorbs(old_map[ver], fb));
                        assert(e0@ == cur_map[ver]);
                        assert(spec_bin_absorbs(e0@, b@));
                        assert(e1 == e0);
                        assert(cur_entries[j as int] == e0);
                        assert(into.entries@ =~= cur_entries);
                        assert(into.entries@ == old(into).entries@);
                    }
                }
            },
            None => {
                proof {
                    lemma_entries_map_contains(cur_entries, ver);
                }
                into.entries.push(b);
                proof {
                    assert(into.entries@.drop_last() =~= cur_entries);
                    assert(into.entries@.last() == b);
                    assert(spec_entries_wf(into.entries@)) by {
                        assert(forall|k: int|
                            0 <= k < cur_entries.len() ==> into.entries@[k] == cur_entries[k]);
                    }
                    assert(into.as_map() == cur_map.insert(ver, fb));
                    assert(!cur_map.contains_key(ver));
                    assert(!old_map.contains_key(ver));
                    assert(into.as_map() =~~= spec_merge_maps(old_map, spec_entries_map(post)));
                    if spec_map_absorbs(old_map, from.as_map()) {
                        assert(from.as_map().contains_key(ver) && from.as_map()[ver] == fb);
                        assert(false);
                    }
                }
            },
        }
        i = i + 1;
    }
    proof {
        assert(from.entries@.take(n as int) =~= from.entries@);
    }
}

/// The character views of a list of `(path, report)` pairs.
pub open spec fn spec_outputs_view(outs: Seq<(String, String)>) -> Seq<(Seq<char>, Seq<char>)> {
    outs.map_values(|p: (String, String)| (p.0@, p.1@))
}

/// The catalog one search location contributes, from the `(canonical path,
/// version report)` pairs of its candidates in discovery order: a candidate
/// whose report does not parse is skipped; the first path found for a
/// version and mode wins.
pub open spec fn spec_scan_map(outs: Seq<(Seq<char>, Seq<char>)>) -> Map<PhpVersion, BinView>
    decreases outs.len(),
{
    if outs.len() == 0 {
        Map::empty()
    } else {
        let prev = spec_scan_map(outs.drop_last());
        let pr = outs.last();
        match spec_parse_version_output(pr.1) {
            Option::None => prev,
            Option::Some(vm) => {
                if prev.contains_key(vm.0) {
                    prev.insert(vm.0, spec_bin_add_if_absent(prev[vm.0], vm.1, pr.0))
                } else {
                    prev.insert(vm.0, spec_with_sapi(spec_bin_empty(vm.0), vm.1, pr.0))
                }
            },
        }
    }
}

/// Builds one search location's catalog from its candidates' canonical
/// paths and captured version reports, in discovery order.
pub fn binaries_from_outputs(outputs: &Vec<(String, String)>) -> (c: RuntimeCatalog)
    ensures
        c.wf(),
        c.as_map() == spec_scan_map(spec_outputs_view(outputs@)),
{
    let mut c = RuntimeCatalog::new();
    let mut i: usize = 0;
    while i < outputs.len()
        invariant
            i <= outputs@.len(),
            c.wf(),
            c.as_map() == spec_scan_map(spec_outputs_view(outputs@).take(i as int)),
        decreases outputs@.len() - i,
    {
        let ghost pre = spec_outputs_view(outputs@).take(i as int);
        let ghost post = spec_outputs_view(outputs@).take(i + 1);
        let ghost prev = c.as_map();
        let ghost cur_entries = c.entries@;
        proof {
            assert(post.drop_last() =~= pre);
            assert(post.last() == (outputs@[i as int].0@, outputs@[i as int].1@));
        }
        match parse_version_and_mode(outputs[i].1.as_str()) {
            Err(_) => {
                // a malformed self-report skips this candidate, not the scan
            },
            Ok((ver, m)) => {
                match c.find_index(&ver) {
                    Some(j) => {
                        proof {
                            lemma_entries_map_index(cur_entries, j as int);
                        }
                        let already = c.entries[j].has_sapi(&m);
                        if !already {
                            let mut e = c.entries.remove(j);
                            e.add_sapi(&m, outputs[i].0.as_str());
                            let ghost e1 = e;
                            c.entries.insert(j, e);
                            proof {
                                assert(c.entries@ =~= cur_entries.update(j as int, e1));
                                lemma_entries_map_update(cur_entries, j as int, e1);
                                assert(c.as_map() =~~= spec_scan_map(post));
                            }
                        } else {
                            proof {
                                assert(spec_bin_add_if_absent(
                                    prev[ver],
                                    m,
                                    outputs@[i as int].0@,
                                ) == prev[ver]);
                                assert(prev.insert(ver, prev[ver]) =~~= prev);
                                assert(c.as_map() =~~= spec_scan_map(post));
                            }
                        }
                    },
                    None => {
                        proof {
                            lemma_entries_map_contains(cur_entries, ver);
                        }
                        let mut nb = PhpBinary::from_version(ver);
                        nb.add_sapi(&m, outputs[i].0.as_str());
                        c.entries.push(nb);
                        proof {
                            assert(c.entries@.drop_last() =~= cur_entries);
                            assert(spec_entries_wf(c.entries@)) by {
                                assert(forall|k: int|
                                    0 <= k < cur_entries.len() ==> c.entries@[k]
                                        == cur_entries[k]);
                            }
                            assert(c.as_map() =~~= spec_scan_map(post));
                        }
                    },
                }
            },
        }
        i = i + 1;
    }
    proof {
        assert(spec_outputs_view(outputs@).take(outputs@.len() as int) =~= spec_outputs_view(
            outputs@,
        ));
    }
    c
}

/// The per-location views of a list of search locations.
pub open spec fn spec_locations_view(
    locs: Seq<Vec<(String, String)>>,
) -> Seq<Seq<(Seq<char>, Seq<char>)>> {
    locs.map_values(|l: Vec<(String, String)>| spec_outputs_view(l@))
}

/// The catalog of a whole scan: each location's contribution merged in
/// order, earlier locations winning.
pub open spec fn spec_all_locations(ls: Seq<Seq<(Seq<char>, Seq<char>)>>) -> Map<
    PhpVersion,
    BinView,
>
    decreases ls.len(),
{
    if ls.len() == 0 {
        Map::empty()
    } else {
        spec_merge_maps(spec_all_locations(ls.drop_last()), spec_scan_map(ls.last()))
    }
}

/// Builds the full catalog from the search locations' candidate lists, in
/// priority order: each location hands in the `(canonical path, version
/// report)` pairs of its candidates; earlier locations win conflicts.
pub fn all(locations: &Vec<Vec<(String, String)>>) -> (c: RuntimeCatalog)
    ensures
        c.wf(),
        c.as_map() == spec_all_locations(spec_locations_view(locations@)),
{
    let mut acc = RuntimeCatalog::new();
    let mut i: usize = 0;
    while i < locations.len()
        invariant
            i <= locations@.len(),
            acc.wf(),
            acc.as_map() == spec_all_locations(spec_locations_view(locations@).take(i as int)),
        decreases locations@.len() - i,
    {
        let ghost pre = spec_locations_view(locations@).take(i as int);
        let ghost post = spec_locations_view(locations@).take(i + 1);
        proof {
            assert(post.drop_last() =~= pre);
            assert(post.last() == spec_outputs_view(locations@[i as int]@));
        }
        let loc_cat = binaries_from_outputs(&locations[i]);
        merge_binaries(loc_cat, &mut acc);
        i = i + 1;
    }
    proof {
        assert(spec_locations_view(locations@).take(locations@.len() as int)
            =~= spec_locations_view(locations@));
    }
    acc
}

/// `v` is the highest version the catalog mapping holds.
pub open spec fn spec_is_max_version(m: Map<PhpVersion, BinView>, v: PhpVersion) -> bool {
    &&& m.contains_key(v)
    &&& forall|w: PhpVersion| #[trigger] m.contains_key(w) ==> spec_version_le(w, v)
}

/// Chooses the catalog entry a session uses: the binary of the highest
/// version present — a deterministic, stable choice — or nothing from an
/// empty catalog.
pub fn select_default<'a>(catalog: &'a RuntimeCatalog) -> (r: Option<&'a PhpBinary>)
    requires
        catalog.wf(),
    ensures
        match r {
            Some(b) => exists|v: PhpVersion| #[trigger]
                spec_is_max_version(catalog.as_map(), v) && b@ == catalog.as_map()[v],
            None => catalog.entries@.len() == 0,
        },
{
    if catalog.entries.len() == 0 {
        return None;
    }
    let mut best: usize = 0;
    let mut i: usize = 1;
    while i < catalog.entries.len()
        invariant
            catalog.wf(),
            best < i <= catalog.entries@.len(),
            forall|k: int|
                0 <= k < i ==> spec_version_le(
                    (#[trigger] catalog.entries@[k])@.version,
                    catalog.entries@[best as int]@.version,
                ),
        decreases catalog.entries@.len() - i,
    {
        let bv = catalog.entries[best].version();
        let iv = catalog.entries[i].version();
        if version_lt(&bv, &iv) {
            best = i;
        }
        i = i + 1;
    }
    let ghost vmax = catalog.entries@[best as int]@.version;
    proof {
        lemma_entries_map_index(catalog.entries@, best as int);
        assert forall|w: PhpVersion| catalog.as_map().contains_key(w) implies spec_version_le(
            w,
            vmax,
        ) by {
            lemma_entries_map_contains(catalog.entries@, w);
            let k = choose|k: int|
                0 <= k < catalog.entries@.len() && (#[trigger] catalog.entries@[k])@.version == w;
        }
        assert(spec_is_max_version(catalog.as_map(), vmax));
    }
    Some(&catalog.entries[best])
}

/// Picks the executable to run: the preferred path of the highest version
/// in the catalog, or the bare command name `php` when the catalog is empty
/// (or that entry records no path), leaving failure to process start-up.
pub fn current(catalog: &RuntimeCatalog) -> (r: String)
    requires
        catalog.wf(),
    ensures
        catalog.entries@.len() == 0 ==> r@ == seq!['p', 'h', 'p'],
        catalog.entries@.len() > 0 ==> exists|v: PhpVersion| #[trigger]
            spec_is_max_version(catalog.as_map(), v) && r@ == match spec_preferred_path(
                catalog.as_map()[v],
            ) {
                Some(p) => p,
                None => seq!['p', 'h', 'p'],
            },
{
    match select_default(catalog) {
        None => {
            let out = "php".to_owned();
            proof {
                reveal_strlit("php");
                assert(("php")@ =~= seq!['p', 'h', 'p']);
            }
            out
        },
        Some(b) => {
            let ghost vmax = choose|v: PhpVersion|
                spec_is_max_version(catalog.as_map(), v) && b@ == catalog.as_map()[v];
            match b.preferred_path() {
                Some(p) => {
                    let out = p.clone();
                    proof {
                        assert(spec_is_max_version(catalog.as_map(), vmax) && out@
                            == match spec_preferred_path(catalog.as_map()[vmax]) {
                            Some(q) => q,
                            None => seq!['p', 'h', 'p'],
                        });
                    }
                    out
                },
                None => {
                    let out = "php".to_owned();
                    proof {
                        reveal_strlit("php");
                        assert(("php")@ =~= seq!['p', 'h', 'p']);
                        assert(spec_is_max_version(catalog.as_map(), vmax) && out@
                            == match spec_preferred_path(catalog.as_map()[vmax]) {
                            Some(q) => q,
                            None => seq!['p', 'h', 'p'],
                        });
                    }
                    out
                },
            }
        },
    }
}

/// Merging a catalog whose every version and mode the target already holds
/// leaves the target's mapping unchanged.
pub proof fn lemma_merge_absorbed(a: Map<PhpVersion, BinView>, b: Map<PhpVersion, BinView>)
    requires
        spec_map_absorbs(a, b),
    ensures
        spec_merge_maps(a, b) == a,
{
    assert(spec_merge_maps(a, b) =~~= a);
}

/// A merged mapping absorbs both of its sources.
pub proof fn lemma_merge_absorbs_both(a: Map<PhpVersion, BinView>, b: Map<PhpVersion, BinView>)
    ensures
        spec_map_absorbs(spec_merge_maps(a, b), a),
        spec_map_absorbs(spec_merge_maps(a, b), b),
{
}

/// Merging into the empty catalog gives the source back.
pub proof fn lemma_merge_empty(b: Map<PhpVersion, BinView>)
    ensures
        spec_merge_maps(Map::empty(), b) == b,
{
    assert(spec_merge_maps(Map::<PhpVersion, BinView>::empty(), b) =~~= b);
}

/// Scanning the same two search locations twice yields the same catalog as
/// scanning them once: no mode entry is duplicated and no recorded path
/// moves.
pub proof fn lemma_scan_twice_idempotent(
    l1: Seq<(Seq<char>, Seq<char>)>,
    l2: Seq<(Seq<char>, Seq<char>)>,
)
    ensures
        spec_all_locations(seq![l1, l2, l1, l2]) == spec_all_locations(seq![l1, l2]),
{
    let a = spec_scan_map(l1);
    let b = spec_scan_map(l2);
    let once = seq![l1, l2];
    let twice = seq![l1, l2, l1, l2];
    let nil = Seq::<Seq<(Seq<char>, Seq<char>)>>::empty();
    assert(spec_all_locations(nil) == Map::<PhpVersion, BinView>::empty());
    assert(seq![l1].drop_last() =~= nil);
    assert(seq![l1].last() == l1);
    assert(spec_all_locations(seq![l1]) == spec_merge_maps(spec_all_locations(nil), a));
    lemma_merge_empty(a);
    assert(spec_all_locations(seq![l1]) == a);
    let c = spec_merge_maps(a, b);
    assert(once.drop_last() =~= seq![l1]);
    assert(once.last() == l2);
    assert(spec_all_locations(once) == spec_merge_maps(spec_all_locations(once.drop_last()), b));
    assert(spec_all_locations(once) == c);
    lemma_merge_absorbs_both(a, b);
    assert(spec_map_absorbs(c, a));
    assert(spec_map_absorbs(c, b));
    lemma_merge_absorbed(c, a);
    lemma_merge_absorbed(c, b);
    let thrice = seq![l1, l2, l1];
    assert(thrice.drop_last() =~= once);
    assert(thrice.last() == l1);
    assert(spec_all_locations(thrice) == spec_merge_maps(
        spec_all_locations(thrice.drop_last()),
        a,
    ));
    assert(spec_all_locations(thrice) == c);
    assert(twice.drop_last() =~= thrice);
    assert(twice.last() == l2);
    assert(spec_all_locations(twice) == spec_merge_maps(
        spec_all_locations(twice.drop_last()),
        b,
    ));
    assert(spec_all_locations(twice) == c);
}

/// Merge priority for one version two locations both offer: every mode
/// either offers is present, and on a mode both offer the first location's
/// path wins.
pub proof fn lemma_merge_priority(
    a: Map<PhpVersion, BinView>,
    b: Map<PhpVersion, BinView>,
    v: PhpVersion,
    m: PhpServerSapi,
)
    requires
        a.contains_key(v),
        b.contains_key(v),
    ensures
        spec_sapi_path(spec_merge_maps(a, b)[v], m) == if spec_sapi_path(a[v], m) is Some {
            spec_sapi_path(a[v], m)
        } else {
            spec_sapi_path(b[v], m)
        },
{
}

} // verus!
