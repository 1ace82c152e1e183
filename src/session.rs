use vstd::prelude::*;
use vstd::string::StringSliceAdditionalSpecFns;
use crate::text::str_equal;

verus! {

/// One plugin inserted on a track.
#[derive(Clone, Debug)]
pub struct PluginInstance {
    pub plugin_id: String,
    pub name: String,
    pub vendor: String,
    pub version: String,
    pub slot: String,
    pub active: bool,
}

/// One track of a session, with its plugins in slot order.
#[derive(Clone, Debug)]
pub struct SessionTrack {
    pub id: String,
    pub name: String,
    pub track_type: String,
    pub plugins: Vec<PluginInstance>,
}

/// How much one plugin is used across a session.
#[derive(Clone, Debug)]
pub struct PluginUsage {
    pub plugin_id: String,
    pub name: String,
    pub vendor: String,
    pub version: String,
    /// How many times it is inserted, over all tracks.
    pub count: u32,
    /// On how many tracks it is inserted at least once.
    pub track_count: u32,
}

/// How many of the plugins `ps` have the identifier `id`.
pub open spec fn count_in_plugins(ps: Seq<PluginInstance>, id: Seq<char>) -> nat
    decreases ps.len(),
{
    if ps.len() == 0 {
        0
    } else {
        count_in_plugins(ps.drop_last(), id) + if ps.last().plugin_id@ == id { 1nat } else { 0nat }
    }
}

/// How many plugins with the identifier `id` the tracks `ts` hold in all.
pub open spec fn count_in_tracks(ts: Seq<SessionTrack>, id: Seq<char>) -> nat
    decreases ts.len(),
{
    if ts.len() == 0 {
        0
    } else {
        count_in_tracks(ts.drop_last(), id) + count_in_plugins(ts.last().plugins@, id)
    }
}

/// How many of the tracks `ts` hold a plugin with the identifier `id`.
pub open spec fn tracks_with(ts: Seq<SessionTrack>, id: Seq<char>) -> nat
    decreases ts.len(),
{
    if ts.len() == 0 {
        0
    } else {
        tracks_with(ts.drop_last(), id) + if count_in_plugins(ts.last().plugins@, id) > 0 { 1nat } else { 0nat }
    }
}

/// How many plugins the tracks `ts` hold in all.
pub open spec fn total_plugins(ts: Seq<SessionTrack>) -> nat
    decreases ts.len(),
{
    if ts.len() == 0 {
        0
    } else {
        total_plugins(ts.drop_last()) + ts.last().plugins@.len()
    }
}

proof fn lemma_count_in_plugins_bound(ps: Seq<PluginInstance>, id: Seq<char>)
    ensures
        count_in_plugins(ps, id) <= ps.len(),
    decreases ps.len(),
{
    if ps.len() > 0 {
        lemma_count_in_plugins_bound(ps.drop_last(), id);
    }
}

proof fn lemma_counts_bounded(ts: Seq<SessionTrack>, id: Seq<char>)
    ensures
        count_in_tracks(ts, id) <= total_plugins(ts),
        tracks_with(ts, id) <= count_in_tracks(ts, id),
    decreases ts.len(),
{
    if ts.len() > 0 {
        lemma_counts_bounded(ts.drop_last(), id);
        lemma_count_in_plugins_bound(ts.last().plugins@, id);
    }
}

/// How many of the plugins `ps` have the identifier `id`.
fn count_plugins(ps: &Vec<PluginInstance>, id: &str) -> (r: u32)
    requires
        ps@.len() <= u32::MAX,
    ensures
        r == count_in_plugins(ps@, id@),
{
    let mut r: u32 = 0;
    let mut i: usize = 0;
    while i < ps.len()
        invariant
            ps@.len() <= u32::MAX,
            i <= ps@.len(),
            r == count_in_plugins(ps@.subrange(0, i as int), id@),
        decreases ps@.len() - i,
    {
        proof {
            let pre = ps@.subrange(0, i as int + 1);
            assert(pre.drop_last() =~= ps@.subrange(0, i as int));
            lemma_count_in_plugins_bound(ps@.subrange(0, i as int), id@);
        }
        if str_equal(ps[i].plugin_id.as_str(), id) {
            r = r + 1;
        }
        i = i + 1;
    }
    assert(ps@.subrange(0, ps@.len() as int) =~= ps@);
    r
}

/// How often the plugin with identifier `id` is inserted over `tracks`, and
/// on how many tracks.
pub fn plugin_counts(tracks: &Vec<SessionTrack>, id: &str) -> (r: (u32, u32))
    requires
        total_plugins(tracks@) <= u32::MAX,
    ensures
        r.0 == count_in_tracks(tracks@, id@),
        r.1 == tracks_with(tracks@, id@),
{
    let mut count: u32 = 0;
    let mut on_tracks: u32 = 0;
    let mut i: usize = 0;
    while i < tracks.len()
        invariant
            total_plugins(tracks@) <= u32::MAX,
            i <= tracks@.len(),
            count == count_in_tracks(tracks@.subrange(0, i as int), id@),
            on_tracks == tracks_with(tracks@.subrange(0, i as int), id@),
        decreases tracks@.len() - i,
    {
        proof {
            let pre = tracks@.subrange(0, i as int + 1);
            assert(pre.drop_last() =~= tracks@.subrange(0, i as int));
            lemma_total_prefix(tracks@, i as int + 1);
            lemma_counts_bounded(pre, id@);
            lemma_count_in_plugins_bound(tracks@[i as int].plugins@, id@);
        }
        let here = count_plugins(&tracks[i].plugins, id);
        count = count + here;
        if here > 0 {
            on_tracks = on_tracks + 1;
        }
        i = i + 1;
    }
    assert(tracks@.subrange(0, tracks@.len() as int) =~= tracks@);
    (count, on_tracks)
}

proof fn lemma_total_prefix(ts: Seq<SessionTrack>, n: int)
    requires
        0 <= n <= ts.len(),
    ensures
        total_plugins(ts.subrange(0, n)) <= total_plugins(ts),
    decreases ts.len(),
{
    if n < ts.len() {
        assert(ts.drop_last().subrange(0, n) =~= ts.subrange(0, n));
        lemma_total_prefix(ts.drop_last(), n);
    } else {
        assert(ts.subrange(0, n) =~= ts);
    }
}

/// The first of the plugins `ps` with the identifier `id`.
pub open spec fn first_in_plugins(ps: Seq<PluginInstance>, id: Seq<char>) -> Option<PluginInstance>
    decreases ps.len(),
{
    if ps.len() == 0 {
        None
    } else {
        match first_in_plugins(ps.drop_last(), id) {
            Some(p) => Some(p),
            None => if ps.last().plugin_id@ == id { Some(ps.last()) } else { None },
        }
    }
}

/// The first plugin with the identifier `id` over the tracks `ts`, in track
/// order and then slot order.
pub open spec fn first_in_tracks(ts: Seq<SessionTrack>, id: Seq<char>) -> Option<PluginInstance>
    decreases ts.len(),
{
    if ts.len() == 0 {
        None
    } else {
        match first_in_tracks(ts.drop_last(), id) {
            Some(p) => Some(p),
            None => first_in_plugins(ts.last().plugins@, id),
        }
    }
}

/// The first plugin with identifier `id` among the first `i` tracks and the
/// first `j` plugins of track `i`.
pub open spec fn first_upto(ts: Seq<SessionTrack>, i: int, j: int, id: Seq<char>) -> Option<PluginInstance> {
    match first_in_tracks(ts.subrange(0, i), id) {
        Some(p) => Some(p),
        None => if i < ts.len() { first_in_plugins(ts[i].plugins@.subrange(0, j), id) } else { None },
    }
}

impl PluginInstance {
    /// A field-by-field copy.
    pub fn duplicate(&self) -> (r: Self)
        ensures
            r == *self,
    {
        PluginInstance {
            plugin_id: self.plugin_id.clone(),
            name: self.name.clone(),
            vendor: self.vendor.clone(),
            version: self.version.clone(),
            slot: self.slot.clone(),
            active: self.active,
        }
    }
}

/// The first instance of each plugin over `tracks`, one per identifier.
fn first_instances(tracks: &Vec<SessionTrack>) -> (r: Vec<PluginInstance>)
    ensures
        forall|a: int, b: int| 0 <= a < b < r@.len() ==> (#[trigger] r@[a]).plugin_id@ != (#[trigger] r@[b]).plugin_id@,
        forall|k: int| 0 <= k < r@.len() ==> first_in_tracks(tracks@, (#[trigger] r@[k]).plugin_id@) == Some(r@[k]),
        forall|id: Seq<char>| #[trigger] first_in_tracks(tracks@, id) is Some ==> exists|k: int|
            0 <= k < r@.len() && (#[trigger] r@[k]).plugin_id@ == id,
{
    let ghost ts = tracks@;
    let mut seen: Vec<PluginInstance> = Vec::new();
    let mut i: usize = 0;
    while i < tracks.len()
        invariant
            ts == tracks@,
            i <= ts.len(),
            forall|a: int, b: int| 0 <= a < b < seen@.len() ==> (#[trigger] seen@[a]).plugin_id@ != (#[trigger] seen@[b]).plugin_id@,
            forall|k: int| 0 <= k < seen@.len() ==> first_in_tracks(ts.subrange(0, i as int), (#[trigger] seen@[k]).plugin_id@) == Some(seen@[k]),
            forall|id: Seq<char>| #[trigger] first_in_tracks(ts.subrange(0, i as int), id) is Some ==> exists|k: int|
                0 <= k < seen@.len() && (#[trigger] seen@[k]).plugin_id@ == id,
        decreases ts.len() - i,
    {
        let plugins = &tracks[i].plugins;
        let ghost ps = plugins@;
        let mut j: usize = 0;
        proof {
            assert forall|id: Seq<char>| first_upto(ts, i as int, 0, id) == #[trigger] first_in_tracks(ts.subrange(0, i as int), id) by {
                assert(ps.subrange(0, 0).len() == 0);
            }
        }
        while j < plugins.len()
            invariant
                ts == tracks@,
                i < ts.len(),
                ps == ts[i as int].plugins@,
                ps == plugins@,
                j <= ps.len(),
                forall|a: int, b: int| 0 <= a < b < seen@.len() ==> (#[trigger] seen@[a]).plugin_id@ != (#[trigger] seen@[b]).plugin_id@,
                forall|k: int| 0 <= k < seen@.len() ==> first_upto(ts, i as int, j as int, (#[trigger] seen@[k]).plugin_id@) == Some(seen@[k]),
                forall|id: Seq<char>| #[trigger] first_upto(ts, i as int, j as int, id) is Some ==> exists|k: int|
                    0 <= k < seen@.len() && (#[trigger] seen@[k]).plugin_id@ == id,
            decreases ps.len() - j,
        {
            let p = &plugins[j];
            proof {
                assert(ps.subrange(0, j as int + 1).drop_last() =~= ps.subrange(0, j as int));
                assert(ps.subrange(0, j as int + 1).last() == *p);
            }
            let mut k: usize = 0;
            let mut found = false;
            while k < seen.len()
                invariant
                    k <= seen@.len(),
                    !found ==> forall|t: int| 0 <= t < k ==> (#[trigger] seen@[t]).plugin_id@ != p.plugin_id@,
                    found ==> exists|t: int| 0 <= t < seen@.len() && (#[trigger] seen@[t]).plugin_id@ == p.plugin_id@,
                decreases seen@.len() - k,
            {
                if str_equal(seen[k].plugin_id.as_str(), p.plugin_id.as_str()) {
                    found = true;
                    assert(seen@[k as int].plugin_id@ == p.plugin_id@);
                }
                k = k + 1;
            }
            let ghost before = seen@;
            if !found {
                seen.push(p.duplicate());
                proof {
                    assert(seen@[before.len() as int] == *p);
                    assert forall|t: int| 0 <= t < before.len() implies (#[trigger] seen@[t]) == before[t] by {}
                }
            }
            proof {
                assert forall|id: Seq<char>| #[trigger] first_upto(ts, i as int, j + 1, id) == (match first_upto(ts, i as int, j as int, id) {
                    Some(q) => Some(q),
                    None => if p.plugin_id@ == id { Some(*p) } else { None },
                }) by {}
                if !found {
                    assert(first_upto(ts, i as int, j as int, p.plugin_id@) is None);
                }
                assert forall|a: int, b: int| 0 <= a < b < seen@.len() implies (#[trigger] seen@[a]).plugin_id@ != (#[trigger] seen@[b]).plugin_id@ by {
                    if b < before.len() {
                        assert(seen@[a] == before[a] && seen@[b] == before[b]);
                    } else {
                        assert(seen@[a] == before[a]);
                    }
                }
                assert forall|t: int| 0 <= t < seen@.len() implies first_upto(ts, i as int, j + 1, (#[trigger] seen@[t]).plugin_id@) == Some(seen@[t]) by {
                    if t < before.len() {
                        assert(seen@[t] == before[t]);
                    }
                }
                assert forall|id: Seq<char>| #[trigger] first_upto(ts, i as int, j + 1, id) is Some implies exists|t: int|
                    0 <= t < seen@.len() && (#[trigger] seen@[t]).plugin_id@ == id by {
                    if first_upto(ts, i as int, j as int, id) is Some {
                        let t = choose|t: int| 0 <= t < before.len() && (#[trigger] before[t]).plugin_id@ == id;
                        assert(seen@[t] == before[t]);
                    } else if found {
                    } else {
                        assert(seen@[before.len() as int].plugin_id@ == id);
                    }
                }
            }
            j = j + 1;
        }
        proof {
            assert(ts.subrange(0, i as int + 1).drop_last() =~= ts.subrange(0, i as int));
            assert(ts.subrange(0, i as int + 1).last() == ts[i as int]);
            assert(ps.subrange(0, ps.len() as int) =~= ps);
            assert forall|id: Seq<char>| #[trigger] first_in_tracks(ts.subrange(0, i as int + 1), id) == first_upto(ts, i as int, ps.len() as int, id) by {}
        }
        i = i + 1;
    }
    assert(ts.subrange(0, ts.len() as int) =~= ts);
    seen
}

/// How much each plugin is used over `tracks`: one entry per plugin
/// identifier that occurs, with the name, vendor and version of its first
/// instance, how often it is inserted and on how many tracks.
pub fn plugin_usage(tracks: &Vec<SessionTrack>) -> (r: Vec<PluginUsage>)
    requires
        total_plugins(tracks@) <= u32::MAX,
    ensures
        forall|a: int, b: int| 0 <= a < b < r@.len() ==> (#[trigger] r@[a]).plugin_id@ != (#[trigger] r@[b]).plugin_id@,
        forall|id: Seq<char>| #[trigger] first_in_tracks(tracks@, id) is Some ==> exists|k: int|
            0 <= k < r@.len() && (#[trigger] r@[k]).plugin_id@ == id,
        forall|k: int| 0 <= k < r@.len() ==> {
            let u = #[trigger] r@[k];
            &&& first_in_tracks(tracks@, u.plugin_id@) matches Some(p)
            &&& p.name == u.name && p.vendor == u.vendor && p.version == u.version
            &&& u.count == count_in_tracks(tracks@, u.plugin_id@)
            &&& u.track_count == tracks_with(tracks@, u.plugin_id@)
        },
{
    let firsts = first_instances(tracks);
    let mut out: Vec<PluginUsage> = Vec::new();
    let mut k: usize = 0;
    while k < firsts.len()
        invariant
            total_plugins(tracks@) <= u32::MAX,
            k <= firsts@.len(),
            out@.len() == k,
            forall|a: int, b: int| 0 <= a < b < firsts@.len() ==> (#[trigger] firsts@[a]).plugin_id@ != (#[trigger] firsts@[b]).plugin_id@,
            forall|t: int| 0 <= t < firsts@.len() ==> first_in_tracks(tracks@, (#[trigger] firsts@[t]).plugin_id@) == Some(firsts@[t]),
            forall|t: int| 0 <= t < k ==> {
                let u = #[trigger] out@[t];
                &&& u.plugin_id == firsts@[t].plugin_id && u.name == firsts@[t].name
                &&& u.vendor == firsts@[t].vendor && u.version == firsts@[t].version
                &&& u.count == count_in_tracks(tracks@, u.plugin_id@)
                &&& u.track_count == tracks_with(tracks@, u.plugin_id@)
            },
        decreases firsts@.len() - k,
    {
        let f = &firsts[k];
        let (count, track_count) = plugin_counts(tracks, f.plugin_id.as_str());
        out.push(PluginUsage {
            plugin_id: f.plugin_id.clone(),
            name: f.name.clone(),
            vendor: f.vendor.clone(),
            version: f.version.clone(),
            count,
            track_count,
        });
        k = k + 1;
    }
    proof {
        assert forall|a: int, b: int| 0 <= a < b < out@.len() implies (#[trigger] out@[a]).plugin_id@ != (#[trigger] out@[b]).plugin_id@ by {
            assert(out@[a].plugin_id == firsts@[a].plugin_id);
            assert(out@[b].plugin_id == firsts@[b].plugin_id);
        }
        assert forall|id: Seq<char>| #[trigger] first_in_tracks(tracks@, id) is Some implies exists|t: int|
            0 <= t < out@.len() && (#[trigger] out@[t]).plugin_id@ == id by {
            let t = choose|t: int| 0 <= t < firsts@.len() && (#[trigger] firsts@[t]).plugin_id@ == id;
            assert(out@[t].plugin_id == firsts@[t].plugin_id);
        }
        assert forall|t: int| 0 <= t < out@.len() implies first_in_tracks(tracks@, (#[trigger] out@[t]).plugin_id@) == Some(firsts@[t]) by {
            assert(out@[t].plugin_id == firsts@[t].plugin_id);
        }
    }
    out
}

/// The lowercase hexadecimal MD5 digest of a byte string.
pub uninterp spec fn md5_hex_of(b: Seq<u8>) -> Seq<char>;

/// Relies on `md5::compute` and the digest's `LowerHex` format: the digest of
/// the bytes, its 16 bytes written as two lowercase hex digits each.
#[verifier::external_body]
fn md5_hex(bytes: &[u8]) -> (r: String)
    ensures
        r@ == md5_hex_of(bytes@),
        r@.len() == 32,
{
    format!("{:x}", md5::compute(bytes))
}

/// The fingerprint of a session file: the MD5 digest of its contents, in hex.
pub fn session_fingerprint(contents: &[u8]) -> (r: String)
    ensures
        r@ == md5_hex_of(contents@),
        r@.len() == 32,
{
    md5_hex(contents)
}

/// The identifier of a session: the MD5 digest of its file's path, in hex.
pub fn session_id(path: &str) -> (r: String)
    ensures
        r@ == md5_hex_of(path.spec_bytes()),
        r@.len() == 32,
{
    md5_hex(path.as_bytes())
}

} // verus!
