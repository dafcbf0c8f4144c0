//! Tearing the proxies down again.
//!
//! Cleanup locates every entity carrying a proxy-renderable marker — however
//! many subjects were proxied, and whether or not the reconciliation passes
//! of this session spawned them — and hands the host the full list to
//! despawn. The host's despawn removes each listed entity together with its
//! subtree; [`apply_cleanup`] models the removal of the listed entities
//! themselves, which are the only carriers of markers.

use vstd::prelude::*;
use crate::scene::{EntityView, Scene, SceneEntity, carries_proxy_marker};

verus! {

/// The ids cleanup despawns: every entity carrying a billboard texture or
/// billboard mesh marker, in scene order.
pub open spec fn clean_meshless_spec(s: Seq<EntityView>) -> Seq<u64> {
    s.filter_map(
        |e: EntityView| if carries_proxy_marker(e) {
            Some(e.id)
        } else {
            None
        },
    )
}

/// The scene after the host despawned the listed entities.
pub open spec fn apply_cleanup_spec(s: Seq<EntityView>, roots: Seq<u64>) -> Seq<EntityView> {
    s.filter(|e: EntityView| !roots.contains(e.id))
}

/// The cleanup pass: every entity carrying a proxy-renderable marker is to
/// be despawned, with its whole subtree. Unconditional and non-incremental;
/// meant for full teardown.
pub fn clean_meshless(scene: &Scene) -> (r: Vec<u64>)
    ensures
        r@ == clean_meshless_spec(scene@),
{
    let ghost f = |e: EntityView| if carries_proxy_marker(e) {
        Some(e.id)
    } else {
        None
    };
    let mut out: Vec<u64> = Vec::new();
    let n: usize = scene.entities.len();
    let mut i: usize = 0;
    proof {
        assert(scene@.take(0) =~= Seq::<EntityView>::empty());
        assert(out@ =~= scene@.take(0).filter_map(f));
    }
    while i < n
        invariant
            i <= n,
            n == scene@.len(),
            f == (|e: EntityView| if carries_proxy_marker(e) {
                Some(e.id)
            } else {
                None
            }),
            out@ =~= scene@.take(i as int).filter_map(f),
        decreases n - i,
    {
        let ent = &scene.entities[i];
        proof {
            assert(scene@[i as int] == ent@);
        }
        if ent.billboard_texture || ent.billboard_mesh {
            out.push(ent.id);
        }
        proof {
            scene@.lemma_filter_map_take_succ(f, i as int);
        }
        i = i + 1;
    }
    proof {
        assert(scene@.take(n as int) =~= scene@);
    }
    out
}

/// Is `id` one of the listed despawn roots?
fn is_root(roots: &Vec<u64>, id: u64) -> (r: bool)
    ensures
        r == roots@.contains(id),
{
    let n: usize = roots.len();
    let mut i: usize = 0;
    while i < n
        invariant
            i <= n,
            n == roots@.len(),
            forall|k: int| 0 <= k < i ==> roots@[k] != id,
        decreases n - i,
    {
        if roots[i] == id {
            return true;
        }
        i = i + 1;
    }
    false
}

/// Remove the listed entities from the scene snapshot, as the host's
/// despawn does. Each despawn is independent: an entity absent from the
/// scene is skipped, and the rest are still removed.
pub fn apply_cleanup(scene: Scene, roots: &Vec<u64>) -> (r: Scene)
    ensures
        r@ == apply_cleanup_spec(scene@, roots@),
{
    let ghost orig = scene@;
    let ghost p = |e: EntityView| !roots@.contains(e.id);
    let mut entities = scene.entities;
    let mut out: Vec<SceneEntity> = Vec::new();
    let n: usize = entities.len();
    let mut i: usize = 0;
    proof {
        assert(orig.take(0) =~= Seq::<EntityView>::empty());
        reveal(Seq::filter);
        assert(Seq::new(out@.len(), |j: int| out@[j]@) =~= orig.take(0).filter(p));
    }
    while i < n
        invariant
            i <= n,
            n == orig.len(),
            entities@.len() == n - i,
            forall|k: int| 0 <= k < entities@.len() ==> entities@[k]@ == orig[i + k],
            p == (|e: EntityView| !roots@.contains(e.id)),
            Seq::new(out@.len(), |j: int| out@[j]@) =~= orig.take(i as int).filter(p),
        decreases n - i,
    {
        let ghost prev = Seq::new(out@.len(), |j: int| out@[j]@);
        let ent = entities.remove(0);
        proof {
            assert(ent@ == orig[i as int]);
        }
        let keep = !is_root(roots, ent.id);
        if keep {
            out.push(ent);
        }
        proof {
            reveal(Seq::filter);
            assert(orig.take(i as int + 1).drop_last() =~= orig.take(i as int));
            assert(orig.take(i as int + 1).last() == orig[i as int]);
            if keep {
                assert(Seq::new(out@.len(), |j: int| out@[j]@) =~= prev.push(orig[i as int]));
            }
        }
        i = i + 1;
    }
    proof {
        assert(orig.take(n as int) =~= orig);
    }
    Scene { entities: out }
}

} // verus!
