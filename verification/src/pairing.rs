//! The hash that ties an object to the packet that it was built for.
use vstd::prelude::*;
use vstd::string::StringSliceAdditionalSpecFns;
use vstd::utf8::encode_utf8;

use crate::json::{json_text, keys_of, member, render, text_or_empty, Json, JsonView};
use crate::order::{listing, views, SortedSet};

verus! {

/// The hash of nothing.
pub const FNV_BASIS: u64 = 0xcbf2_9ce4_8422_2325;

/// What the hash is multiplied by for each byte.
pub const FNV_PRIME: u64 = 0x1000_0000_01b3;

/// A hash carried on over the first `n` of some bytes.
pub open spec fn fnv(h: u64, b: Seq<u8>, n: int) -> u64
    decreases n,
{
    if n <= 0 {
        h
    } else {
        (fnv(h, b, n - 1) ^ (b[n - 1] as u64)).wrapping_mul(FNV_PRIME)
    }
}

/// A hash carried on over a text.
pub open spec fn fed(h: u64, t: Seq<char>) -> u64 {
    fnv(h, encode_utf8(t), encode_utf8(t).len() as int)
}

/// Carries a hash on over a text.
pub fn feed(h: u64, t: &str) -> (r: u64)
    ensures
        r == fed(h, t@),
{
    let b: &[u8] = t.as_bytes();
    let mut r: u64 = h;
    let mut i: usize = 0;
    while i < b.len()
        invariant
            i <= b@.len(),
            b@ == encode_utf8(t@),
            r == fnv(h, b@, i as int),
        decreases b@.len() - i,
    {
        r = (r ^ (b[i] as u64)).wrapping_mul(FNV_PRIME);
        i = i + 1;
    }
    r
}

/// A hash carried on over the first `n` arms, each with its end marked.
pub open spec fn fed_arms(h: u64, v: Seq<JsonView>, n: int) -> u64
    decreases n,
{
    if n <= 0 {
        h
    } else {
        fed(fed(fed_arms(h, v, n - 1), text_or_empty(v[n - 1])), "\x1f"@)
    }
}

/// A hash carried on over the first `n` constants, each as its name, its value and an end mark.
pub open spec fn fed_constants(
    h: u64,
    m: Map<Seq<char>, JsonView>,
    ks: Seq<Seq<char>>,
    n: int,
) -> u64
    decreases n,
{
    if n <= 0 {
        h
    } else {
        let a = fed(fed_constants(h, m, ks, n - 1), ks[n - 1]);
        fed(fed(fed(a, "="@), json_text(m[ks[n - 1]])), "\x1f"@)
    }
}

/// A hash carried on over the arms of a manifest.
pub open spec fn hash_union(h: u64, u: Option<JsonView>) -> u64 {
    match u {
        Some(JsonView::Arr(v)) => fed_arms(h, v, v.len() as int),
        _ => h,
    }
}

/// A hash carried on over the objects of a manifest.
pub open spec fn hash_objects(h: u64, o: Option<JsonView>) -> u64 {
    match o {
        Some(d) => fed(h, json_text(d)),
        None => h,
    }
}

/// A hash carried on over the constants of a manifest, in the order of their names.
pub open spec fn hash_tuning(h: u64, t: Option<JsonView>) -> u64 {
    match t {
        Some(JsonView::Obj(m)) => {
            let ks = listing::<String>(m.dom());
            fed_constants(h, m, ks, ks.len() as int)
        },
        _ => h,
    }
}

/// The hash of what an object is compiled from: the arms, the objects and the constants.
pub open spec fn compiled_hash(
    u: Option<JsonView>,
    o: Option<JsonView>,
    t: Option<JsonView>,
) -> u64 {
    let h = fed(hash_union(FNV_BASIS, u), "\x1e"@);
    hash_tuning(fed(hash_objects(h, o), "\x1e"@), t)
}

/// The pairing hash of a manifest.
pub open spec fn hash_of(m: JsonView) -> u64 {
    compiled_hash(member(m, "union"@), member(m, "objects"@), member(m, "tuning"@))
}

fn feed_union(h: u64, u: Option<&Json>) -> (r: u64)
    ensures
        r == hash_union(h, crate::json::opt_view(u)),
{
    match u {
        Some(d) => match d {
            Json::Arr(v) => {
                let mut r: u64 = h;
                let mut i: usize = 0;
                proof {
                    crate::json::arr_view_items(v@, v@.len());
                }
                while i < v.len()
                    invariant
                        i <= v@.len(),
                        d@ == JsonView::Arr(crate::json::arr_view(v@, v@.len())),
                        forall|k: int|
                            0 <= k < v@.len() ==> #[trigger] crate::json::arr_view(
                                v@,
                                v@.len(),
                            )[k] == crate::json::json_view(v@[k]),
                        r == fed_arms(h, crate::json::arr_view(v@, v@.len()), i as int),
                    decreases v@.len() - i,
                {
                    let ghost x = crate::json::arr_view(v@, v@.len())[i as int];
                    match &v[i] {
                        Json::Str(s) => {
                            r = feed(r, s.as_str());
                        },
                        _ => {
                            r = feed(r, "");
                            proof {
                                reveal_strlit("");
                                assert(""@ =~= Seq::<char>::empty());
                            }
                        },
                    }
                    r = feed(r, "\x1f");
                    i = i + 1;
                }
                r
            },
            _ => h,
        },
        None => h,
    }
}

fn feed_tuning(h: u64, t: Option<&Json>) -> (r: u64)
    ensures
        r == hash_tuning(h, crate::json::opt_view(t)),
{
    match t {
        Some(d) => match d {
            Json::Obj(m) => {
                let ks: SortedSet<String> = keys_of(m);
                let ghost kv = views(ks.items@);
                let ghost mv = crate::json::obj_view(m@, m@.len());
                proof {
                    ks.items_are_the_listing();
                    assert(d@ == JsonView::Obj(mv));
                }
                let mut r: u64 = h;
                let mut i: usize = 0;
                while i < ks.items.len()
                    invariant
                        i <= ks.items@.len(),
                        kv == views(ks.items@),
                        kv.to_set() == mv.dom(),
                        d@ == JsonView::Obj(mv),
                        r == fed_constants(h, mv, kv, i as int),
                    decreases ks.items@.len() - i,
                {
                    proof {
                        assert(kv.contains(kv[i as int]));
                        assert(mv.dom().contains(kv[i as int]));
                    }
                    let k: &str = ks.items[i].as_str();
                    r = feed(feed(r, k), "=");
                    if let Some(v) = d.get(k) {
                        r = feed(r, render(v).as_str());
                    }
                    r = feed(r, "\x1f");
                    i = i + 1;
                }
                r
            },
            _ => h,
        },
        None => h,
    }
}

/// The pairing hash of a manifest. Only what an object is compiled from counts.
pub fn pairing_hash(manifest: &Json) -> (r: u64)
    ensures
        r == hash_of(manifest@),
{
    let mut h: u64 = feed_union(FNV_BASIS, manifest.get("union"));
    h = feed(h, "\x1e");
    if let Some(o) = manifest.get("objects") {
        h = feed(h, render(o).as_str());
    }
    h = feed(h, "\x1e");
    feed_tuning(h, manifest.get("tuning"))
}

/// Two manifests with the same arms, objects and constants have the same hash, whatever else they
/// say.
pub proof fn the_hash_ignores_the_rest(a: JsonView, b: JsonView)
    requires
        member(a, "union"@) == member(b, "union"@),
        member(a, "objects"@) == member(b, "objects"@),
        member(a, "tuning"@) == member(b, "tuning"@),
    ensures
        hash_of(a) == hash_of(b),
{
}

} // verus!
