//! The load-bearing properties of the reconciliation and cleanup passes,
//! stated over the same specifications the passes are proved against.

use vstd::prelude::*;
use crate::model::EditorIconAssets;
use crate::scene::{
    EntityView, carries_proxy_marker, has_proxy_child, is_camera_subject, is_custom_subject,
    is_light_subject, marker_entity, wf,
};
use crate::reconcile::{
    MeshChoice, ProxySpawn, TextureChoice, add_child, apply_one, apply_spawns_spec,
    billboard_proxy, camera_spawn, custom_spawn, light_icon, light_spawn, next_after, spawn_width,
    visualize_custom_meshless_spec, visualize_meshless_spec,
};
use crate::cleanup::{apply_cleanup_spec, clean_meshless_spec};

verus! {

/// If a mapped element comes out `Some`, its value is in the mapped
/// sequence.
pub proof fn lemma_filter_map_has<A, B>(s: Seq<A>, f: spec_fn(A) -> Option<B>, e: A)
    requires
        s.contains(e),
        f(e) is Some,
    ensures
        f(e) matches Some(b) ==> s.filter_map(f).contains(b),
    decreases s.len(),
{
    if s.len() > 0 {
        let b = choose|b: B| f(e) == Some(b);
        if s.last() == e {
            match f(s.last()) {
                Some(bb) => {
                    assert(s.filter_map(f) == s.drop_last().filter_map(f) + seq![bb]);
                    assert(s.filter_map(f)[s.filter_map(f).len() - 1] == b);
                },
                None => {},
            }
        } else {
            let idx = choose|idx: int| 0 <= idx < s.len() && s[idx] == e;
            assert(s.drop_last()[idx] == e);
            assert(s.drop_last().contains(e));
            lemma_filter_map_has(s.drop_last(), f, e);
            let j = choose|j: int|
                0 <= j < s.drop_last().filter_map(f).len() && s.drop_last().filter_map(f)[j] == b;
            match f(s.last()) {
                Some(bb) => {
                    assert(s.filter_map(f) == s.drop_last().filter_map(f) + seq![bb]);
                    assert(s.filter_map(f)[j] == b);
                },
                None => {
                    assert(s.filter_map(f) == s.drop_last().filter_map(f));
                    assert(s.filter_map(f)[j] == b);
                },
            }
        }
    }
}

/// If no element maps to `Some`, the mapped sequence is empty.
pub proof fn lemma_filter_map_all_none<A, B>(s: Seq<A>, f: spec_fn(A) -> Option<B>)
    requires
        forall|i: int| 0 <= i < s.len() ==> f(#[trigger] s[i]) is None,
    ensures
        s.filter_map(f) == Seq::<B>::empty(),
    decreases s.len(),
{
    if s.len() > 0 {
        assert(forall|i: int|
            0 <= i < s.drop_last().len() ==> f(#[trigger] s.drop_last()[i]) is None);
        lemma_filter_map_all_none(s.drop_last(), f);
        assert(f(s.last()) is None);
    }
}

/// Cleanup completeness: after the despawns of one cleanup pass, no entity
/// carries a proxy-renderable marker, regardless of how many subjects were
/// proxied beforehand.
pub proof fn lemma_cleanup_complete(s: Seq<EntityView>)
    ensures
        forall|i: int|
            0 <= i < apply_cleanup_spec(s, clean_meshless_spec(s)).len() ==> !carries_proxy_marker(
                #[trigger] apply_cleanup_spec(s, clean_meshless_spec(s))[i],
            ),
{
    let roots = clean_meshless_spec(s);
    let p = |e: EntityView| !roots.contains(e.id);
    let f = |e: EntityView| if carries_proxy_marker(e) {
        Some(e.id)
    } else {
        None
    };
    let r = apply_cleanup_spec(s, roots);
    assert(r == s.filter(p));
    assert(roots == s.filter_map(f));
    assert forall|i: int| 0 <= i < r.len() implies !carries_proxy_marker(r[i]) by {
        s.lemma_filter_pred(p, i);
        assert(s.filter(p).contains(r[i]));
        s.lemma_filter_contains_rev(p, r[i]);
        if carries_proxy_marker(r[i]) {
            lemma_filter_map_has(s, f, r[i]);
            assert(roots.contains(r[i].id));
        }
    }
}

proof fn lemma_filter_congruence<A>(s: Seq<A>, pa: spec_fn(A) -> bool, pb: spec_fn(A) -> bool)
    requires
        forall|i: int| 0 <= i < s.len() ==> pa(#[trigger] s[i]) == pb(s[i]),
    ensures
        s.filter(pa) == s.filter(pb),
    decreases s.len(),
{
    reveal(Seq::filter);
    if s.len() > 0 {
        assert forall|i: int| 0 <= i < s.drop_last().len() implies pa(
            #[trigger] s.drop_last()[i],
        ) == pb(s.drop_last()[i]) by {
            assert(s.drop_last()[i] == s[i]);
        }
        lemma_filter_congruence(s.drop_last(), pa, pb);
        assert(pa(s.last()) == pb(s.last()));
    }
}

/// Cleanup exactness: in a scene that names every entity once, one cleanup
/// round removes the marker carriers and nothing else — the scene that
/// remains is exactly the markerless entities, in order.
pub proof fn lemma_cleanup_exact(s: Seq<EntityView>)
    requires
        wf(s),
    ensures
        apply_cleanup_spec(s, clean_meshless_spec(s)) == s.filter(
            |e: EntityView| !carries_proxy_marker(e),
        ),
{
    let roots = clean_meshless_spec(s);
    let f = |e: EntityView| if carries_proxy_marker(e) {
        Some(e.id)
    } else {
        None
    };
    let pa = |e: EntityView| !roots.contains(e.id);
    let pb = |e: EntityView| !carries_proxy_marker(e);
    assert(roots == s.filter_map(f));
    assert forall|i: int| 0 <= i < s.len() implies pa(#[trigger] s[i]) == pb(s[i]) by {
        if carries_proxy_marker(s[i]) {
            assert(s.contains(s[i]));
            lemma_filter_map_has(s, f, s[i]);
            assert(roots.contains(s[i].id));
        } else if roots.contains(s[i].id) {
            s.lemma_filter_map_contains(f, s[i].id);
            let t = choose|t: EntityView| #[trigger] s.contains(t) && f(t) == Some(s[i].id);
            let j = choose|j: int| 0 <= j < s.len() && s[j] == t;
            assert(t.id == s[i].id);
            if j < i {
                assert(s[j].id != s[i].id);
            }
            if i < j {
                assert(s[i].id != s[j].id);
            }
            assert(carries_proxy_marker(s[i]));
        }
    }
    lemma_filter_congruence(s, pa, pb);
}

/// Everything one reconciliation round spawns: the lights-and-cameras pass
/// followed by the custom pass.
pub open spec fn reconcile_spawns(s: Seq<EntityView>, icons: EditorIconAssets) -> Seq<ProxySpawn> {
    visualize_meshless_spec(s, icons) + visualize_custom_meshless_spec(s, icons)
}

/// Selection back-reference: every spawned clickable collision volume, and
/// every object proxy's own back-reference, names exactly the subject the
/// proxy was spawned for — never an unrelated entity — and that subject is
/// an entity of the scene that was missing its proxy.
pub proof fn lemma_selection_back_reference(s: Seq<EntityView>, icons: EditorIconAssets)
    ensures
        forall|k: int|
            0 <= k < reconcile_spawns(s, icons).len() ==> {
                let sp = #[trigger] reconcile_spawns(s, icons)[k];
                &&& (sp.collider matches Some(c) ==> c.select_parent == sp.subject)
                &&& (sp.select_parent matches Some(t) ==> t == sp.subject)
                &&& exists|i: int|
                    0 <= i < s.len() && #[trigger] s[i].id == sp.subject && !has_proxy_child(
                        s,
                        s[i],
                    )
            },
{
    let f_light = |e: EntityView| light_spawn(s, icons, e);
    let f_cam = |e: EntityView| camera_spawn(s, icons, e);
    let f_custom = |e: EntityView| custom_spawn(s, icons, e);
    let a1 = s.filter_map(f_light);
    let a2 = s.filter_map(f_cam);
    let b = s.filter_map(f_custom);
    assert forall|k: int| 0 <= k < reconcile_spawns(s, icons).len() implies {
        let sp = #[trigger] reconcile_spawns(s, icons)[k];
        &&& (sp.collider matches Some(c) ==> c.select_parent == sp.subject)
        &&& (sp.select_parent matches Some(t) ==> t == sp.subject)
        &&& exists|i: int|
            0 <= i < s.len() && #[trigger] s[i].id == sp.subject && !has_proxy_child(s, s[i])
    } by {
        let sp = reconcile_spawns(s, icons)[k];
        if k < a1.len() {
            assert(a1.contains(sp));
            s.lemma_filter_map_contains(f_light, sp);
            let t = choose|t: EntityView| #[trigger] s.contains(t) && f_light(t) == Some(sp);
            let i = choose|i: int| 0 <= i < s.len() && s[i] == t;
            assert(0 <= i < s.len() && s[i].id == sp.subject && !has_proxy_child(s, s[i]));
        } else if k < a1.len() + a2.len() {
            assert(a2[k - a1.len()] == sp);
            assert(a2.contains(sp));
            s.lemma_filter_map_contains(f_cam, sp);
            let t = choose|t: EntityView| #[trigger] s.contains(t) && f_cam(t) == Some(sp);
            let i = choose|i: int| 0 <= i < s.len() && s[i] == t;
            assert(0 <= i < s.len() && s[i].id == sp.subject && !has_proxy_child(s, s[i]));
        } else {
            assert(b[k - a1.len() - a2.len()] == sp);
            assert(b.contains(sp));
            s.lemma_filter_map_contains(f_custom, sp);
            let t = choose|t: EntityView| #[trigger] s.contains(t) && f_custom(t) == Some(sp);
            let i = choose|i: int| 0 <= i < s.len() && s[i] == t;
            assert(0 <= i < s.len() && s[i].id == sp.subject && !has_proxy_child(s, s[i]));
        }
    }
}

/// `b` is `a` after possibly gaining children; every other field is kept.
pub open spec fn same_entity_extended(a: EntityView, b: EntityView) -> bool {
    &&& b.id == a.id
    &&& b.light == a.light
    &&& b.camera == a.camera
    &&& b.editor_camera == a.editor_camera
    &&& b.prefab == a.prefab
    &&& b.transform == a.transform
    &&& b.visibility == a.visibility
    &&& b.custom == a.custom
    &&& b.billboard_mesh == a.billboard_mesh
    &&& b.billboard_texture == a.billboard_texture
    &&& b.select_parent == a.select_parent
    &&& a.children.is_prefix_of(b.children)
}

/// Every entity named `id` has a marker-carrying proxy child.
pub open spec fn subject_proxied(s: Seq<EntityView>, id: u64) -> bool {
    forall|i: int| 0 <= i < s.len() && (#[trigger] s[i]).id == id ==> has_proxy_child(s, s[i])
}

/// A subject's proxy child survives any growth of the scene that keeps
/// every entity's fields and only appends children or new entities.
pub proof fn lemma_has_proxy_child_monotone(s1: Seq<EntityView>, r: Seq<EntityView>, i: int)
    requires
        s1.len() <= r.len(),
        forall|j: int| 0 <= j < s1.len() ==> same_entity_extended(s1[j], #[trigger] r[j]),
        0 <= i < s1.len(),
        has_proxy_child(s1, s1[i]),
    ensures
        has_proxy_child(r, r[i]),
{
    let j = choose|j: int| 0 <= j < s1[i].children.len() && marker_entity(s1, s1[i].children[j]);
    let cid = s1[i].children[j];
    let k = choose|k: int| 0 <= k < s1.len() && s1[k].id == cid && s1[k].billboard_mesh;
    assert(r[i].children[j] == cid) by {
        assert(s1[i].children =~= r[i].children.subrange(0, s1[i].children.len() as int));
        assert(r[i].children.subrange(0, s1[i].children.len() as int)[j] == r[i].children[j]);
    }
    assert(r[k].id == cid && r[k].billboard_mesh);
    assert(marker_entity(r, cid));
    assert(0 <= j < r[i].children.len() && marker_entity(r, r[i].children[j]));
}

/// The scene after a spawn plan: original entities keep their fields and at
/// most gain children, new entities are fresh-named non-subjects, and every
/// billboard spawn leaves its subject with a marker-carrying proxy child.
pub proof fn lemma_apply_spawns_shape(s: Seq<EntityView>, sps: Seq<ProxySpawn>, next: u64)
    requires
        forall|i: int| 0 <= i < s.len() ==> (#[trigger] s[i]).id < next,
        forall|k: int| 0 <= k < sps.len() ==> (#[trigger] sps[k]).subject < next,
        next + 2 * sps.len() <= u64::MAX,
    ensures
        ({
            let r = apply_spawns_spec(s, sps, next);
            &&& s.len() <= r.len()
            &&& forall|i: int| 0 <= i < s.len() ==> same_entity_extended(s[i], #[trigger] r[i])
            &&& forall|i: int|
                s.len() <= i < r.len() ==> ((#[trigger] r[i]).light is None && !r[i].camera
                    && r[i].custom is None && r[i].id >= next)
            &&& forall|k: int|
                0 <= k < sps.len() && (#[trigger] sps[k]).visual is Billboard ==> subject_proxied(
                    r,
                    sps[k].subject,
                )
        }),
    decreases sps.len(),
{
    if sps.len() == 0 {
        assert forall|i: int| 0 <= i < s.len() implies same_entity_extended(
            s[i],
            #[trigger] s[i],
        ) by {
            assert(s[i].children =~= s[i].children.subrange(0, s[i].children.len() as int));
        }
    } else {
        let sp = sps[0];
        let rest = sps.drop_first();
        let s1 = apply_one(s, sp, next);
        let next1 = next_after(next, sp);
        let r = apply_spawns_spec(s, sps, next);
        assert(r == apply_spawns_spec(s1, rest, next1));
        assert(next1 == next + spawn_width(sp));
        assert(s1.len() == s.len() + spawn_width(sp));
        assert forall|i: int| 0 <= i < s.len() implies same_entity_extended(
            s[i],
            #[trigger] s1[i],
        ) by {
            if s[i].id == sp.subject {
                assert(s1[i] == add_child(s[i], next));
                assert(s[i].children =~= s[i].children.push(next).subrange(
                    0,
                    s[i].children.len() as int,
                ));
            } else {
                assert(s1[i] == s[i]);
                assert(s[i].children =~= s[i].children.subrange(0, s[i].children.len() as int));
            }
        }
        assert forall|i: int| 0 <= i < s1.len() implies (#[trigger] s1[i]).id < next1 by {
            if i < s.len() {
                assert(s1[i].id == s[i].id);
            }
        }
        assert forall|k: int| 0 <= k < rest.len() implies (#[trigger] rest[k]).subject
            < next1 by {
            assert(rest[k] == sps[k + 1]);
        }
        lemma_apply_spawns_shape(s1, rest, next1);
        assert forall|i: int| 0 <= i < s.len() implies same_entity_extended(
            s[i],
            #[trigger] r[i],
        ) by {
            assert(same_entity_extended(s1[i], r[i]));
            assert(s[i].children =~= r[i].children.subrange(0, s[i].children.len() as int)) by {
                assert(s[i].children =~= s1[i].children.subrange(0, s[i].children.len() as int));
                assert(s1[i].children =~= r[i].children.subrange(0, s1[i].children.len() as int));
                assert forall|m: int| 0 <= m < s[i].children.len() implies r[i].children[m] == s[i].children[m] by {
                    assert(s[i].children[m] == s1[i].children.subrange(
                        0,
                        s[i].children.len() as int,
                    )[m]);
                    assert(s1[i].children[m] == r[i].children.subrange(
                        0,
                        s1[i].children.len() as int,
                    )[m]);
                }
            }
        }
        assert forall|i: int| s.len() <= i < r.len() implies ((#[trigger] r[i]).light is None
            && !r[i].camera && r[i].custom is None && r[i].id >= next) by {
            if i < s1.len() {
                assert(same_entity_extended(s1[i], r[i]));
                assert(s1[i].light is None && !s1[i].camera && s1[i].custom is None && s1[i].id
                    >= next);
            } else {
                assert(r[i].id >= next1);
            }
        }
        assert forall|k: int|
            0 <= k < sps.len() && (#[trigger] sps[k]).visual is Billboard implies subject_proxied(
            r,
            sps[k].subject,
        ) by {
            if k == 0 {
                assert(s1[s.len() as int].billboard_mesh && s1[s.len() as int].id == next);
                assert(marker_entity(s1, next));
                assert forall|i: int| 0 <= i < s1.len() && (#[trigger] s1[i]).id == sp.subject
                    implies has_proxy_child(s1, s1[i]) by {
                    assert(i < s.len());
                    assert(s[i].id == sp.subject);
                    assert(s1[i] == add_child(s[i], next));
                    let jj = s[i].children.len() as int;
                    assert(s1[i].children[jj] == next);
                    assert(0 <= jj < s1[i].children.len() && marker_entity(
                        s1,
                        s1[i].children[jj],
                    ));
                }
                assert forall|i: int| 0 <= i < r.len() && (#[trigger] r[i]).id == sp.subject
                    implies has_proxy_child(r, r[i]) by {
                    if i < s1.len() {
                        assert(same_entity_extended(s1[i], r[i]));
                        assert(s1[i].id == sp.subject);
                        assert(has_proxy_child(s1, s1[i]));
                        lemma_has_proxy_child_monotone(s1, r, i);
                    } else {
                        assert(r[i].id >= next1);
                    }
                }
            } else {
                assert(rest[k - 1] == sps[k]);
                assert(subject_proxied(r, rest[k - 1].subject));
            }
        }
    }
}

/// Idempotence: spawn everything one reconciliation round asks for, and a
/// second round over the grown scene asks for nothing — no subject gains a
/// second proxy. Stated for rounds whose pending custom visuals are
/// billboards: an object proxy carries no proxy-renderable marker, so the
/// structural check does not recognize it and its subject is spawned for
/// again.
pub proof fn lemma_reconcile_idempotent(s: Seq<EntityView>, icons: EditorIconAssets, next: u64)
    requires
        forall|i: int| 0 <= i < s.len() ==> (#[trigger] s[i]).id < next,
        next + 2 * reconcile_spawns(s, icons).len() <= u64::MAX,
        forall|i: int|
            0 <= i < s.len() ==> (custom_spawn(s, icons, #[trigger] s[i]) matches Some(sp)
                ==> sp.visual is Billboard),
    ensures
        visualize_meshless_spec(apply_spawns_spec(s, reconcile_spawns(s, icons), next), icons)
            == Seq::<ProxySpawn>::empty(),
        visualize_custom_meshless_spec(
            apply_spawns_spec(s, reconcile_spawns(s, icons), next),
            icons,
        ) == Seq::<ProxySpawn>::empty(),
{
    let plan = reconcile_spawns(s, icons);
    let r = apply_spawns_spec(s, plan, next);
    let f_light = |e: EntityView| light_spawn(s, icons, e);
    let f_cam = |e: EntityView| camera_spawn(s, icons, e);
    let f_custom = |e: EntityView| custom_spawn(s, icons, e);
    let a1 = s.filter_map(f_light);
    let a2 = s.filter_map(f_cam);
    let b = s.filter_map(f_custom);
    assert forall|k: int| 0 <= k < plan.len() implies ((#[trigger] plan[k]).subject < next
        && plan[k].visual is Billboard) by {
        let sp = plan[k];
        if k < a1.len() {
            assert(a1.contains(sp));
            s.lemma_filter_map_contains(f_light, sp);
            let t = choose|t: EntityView| #[trigger] s.contains(t) && f_light(t) == Some(sp);
            let i = choose|i: int| 0 <= i < s.len() && s[i] == t;
            assert(s[i].id < next);
        } else if k < a1.len() + a2.len() {
            assert(a2[k - a1.len()] == sp);
            assert(a2.contains(sp));
            s.lemma_filter_map_contains(f_cam, sp);
            let t = choose|t: EntityView| #[trigger] s.contains(t) && f_cam(t) == Some(sp);
            let i = choose|i: int| 0 <= i < s.len() && s[i] == t;
            assert(s[i].id < next);
        } else {
            assert(b[k - a1.len() - a2.len()] == sp);
            assert(b.contains(sp));
            s.lemma_filter_map_contains(f_custom, sp);
            let t = choose|t: EntityView| #[trigger] s.contains(t) && f_custom(t) == Some(sp);
            let i = choose|i: int| 0 <= i < s.len() && s[i] == t;
            assert(s[i].id < next);
            assert(custom_spawn(s, icons, s[i]) matches Some(spx) ==> spx.visual is Billboard);
        }
    }
    lemma_apply_spawns_shape(s, plan, next);
    let g_light = |e: EntityView| light_spawn(r, icons, e);
    let g_cam = |e: EntityView| camera_spawn(r, icons, e);
    let g_custom = |e: EntityView| custom_spawn(r, icons, e);
    assert forall|i: int| 0 <= i < r.len() implies (g_light(#[trigger] r[i]) is None && g_cam(
        r[i],
    ) is None && g_custom(r[i]) is None) by {
        if i < s.len() {
            assert(same_entity_extended(s[i], r[i]));
            if has_proxy_child(s, s[i]) {
                lemma_has_proxy_child_monotone(s, r, i);
                assert(has_proxy_child(r, r[i]));
            } else {
                match s[i].light {
                    Some(kval) => {
                        if is_light_subject(s[i]) {
                            let bp = billboard_proxy(
                                s[i].id,
                                MeshChoice::Handle(icons.square),
                                TextureChoice::Handle(light_icon(icons, kval)),
                                icons,
                            );
                            assert(f_light(s[i]) == Some(bp));
                            assert(s.contains(s[i]));
                            lemma_filter_map_has(s, f_light, s[i]);
                            assert(a1.contains(bp));
                            let j = choose|j: int| 0 <= j < a1.len() && a1[j] == bp;
                            assert(plan[j] == bp);
                            assert(subject_proxied(r, plan[j].subject));
                            assert(has_proxy_child(r, r[i]));
                        }
                    },
                    None => {},
                }
                if is_camera_subject(s[i]) {
                    let bp = billboard_proxy(
                        s[i].id,
                        MeshChoice::Handle(icons.square),
                        TextureChoice::Handle(icons.camera),
                        icons,
                    );
                    assert(f_cam(s[i]) == Some(bp));
                    assert(s.contains(s[i]));
                    lemma_filter_map_has(s, f_cam, s[i]);
                    assert(a2.contains(bp));
                    let j = choose|j: int| 0 <= j < a2.len() && a2[j] == bp;
                    assert(plan[a1.len() + j] == bp);
                    assert(subject_proxied(r, plan[a1.len() + j].subject));
                    assert(has_proxy_child(r, r[i]));
                }
                match s[i].custom {
                    Some(cm) => {
                        assert(f_custom(s[i]) is Some);
                        let bp = choose|bp: ProxySpawn| f_custom(s[i]) == Some(bp);
                        assert(bp.subject == s[i].id);
                        assert(bp.visual is Billboard);
                        assert(s.contains(s[i]));
                        lemma_filter_map_has(s, f_custom, s[i]);
                        assert(b.contains(bp));
                        let j = choose|j: int| 0 <= j < b.len() && b[j] == bp;
                        assert(plan[a1.len() + a2.len() + j] == bp);
                        assert(subject_proxied(r, plan[a1.len() + a2.len() + j].subject));
                        assert(has_proxy_child(r, r[i]));
                    },
                    None => {},
                }
            }
        } else {
            assert(r[i].light is None && !r[i].camera && r[i].custom is None);
        }
    }
    lemma_filter_map_all_none(r, g_light);
    lemma_filter_map_all_none(r, g_cam);
    lemma_filter_map_all_none(r, g_custom);
    assert(visualize_meshless_spec(r, icons) =~= Seq::<ProxySpawn>::empty());
    assert(visualize_custom_meshless_spec(r, icons) =~= Seq::<ProxySpawn>::empty());
}

/// How many spawns of a plan address the subject named `id`.
pub open spec fn count_subject(sps: Seq<ProxySpawn>, id: u64) -> int {
    sps.filter(|sp: ProxySpawn| sp.subject == id).len() as int
}

proof fn lemma_count_subject_add(x: Seq<ProxySpawn>, y: Seq<ProxySpawn>, id: u64)
    ensures
        count_subject(x + y, id) == count_subject(x, id) + count_subject(y, id),
{
    let pred = |sp: ProxySpawn| sp.subject == id;
    Seq::<ProxySpawn>::filter_distributes_over_add(x, y, pred);
}

/// A pass whose spawns name their own entity never addresses `id` when no
/// element maps to a spawn named `id`.
proof fn lemma_filter_map_count_zero(
    s: Seq<EntityView>,
    f: spec_fn(EntityView) -> Option<ProxySpawn>,
    id: u64,
)
    requires
        forall|j: int|
            0 <= j < s.len() ==> (f(#[trigger] s[j]) matches Some(sp) ==> sp.subject != id),
    ensures
        count_subject(s.filter_map(f), id) == 0,
    decreases s.len(),
{
    let pred = |sp: ProxySpawn| sp.subject == id;
    reveal(Seq::filter);
    if s.len() == 0 {
        assert(s.filter_map(f) =~= Seq::<ProxySpawn>::empty());
    } else {
        assert forall|j: int|
            0 <= j < s.drop_last().len() implies (f(#[trigger] s.drop_last()[j]) matches Some(sp)
            ==> sp.subject != id) by {
            assert(s.drop_last()[j] == s[j]);
        }
        lemma_filter_map_count_zero(s.drop_last(), f, id);
        match f(s.last()) {
            Some(sp) => {
                assert(s.filter_map(f) == s.drop_last().filter_map(f) + seq![sp]);
                lemma_count_subject_add(s.drop_last().filter_map(f), seq![sp], id);
                assert(seq![sp].filter(pred) =~= Seq::<ProxySpawn>::empty()) by {
                    reveal_with_fuel(Seq::filter, 2);
                    assert(seq![sp].drop_last() =~= Seq::<ProxySpawn>::empty());
                }
            },
            None => {
                assert(s.filter_map(f) == s.drop_last().filter_map(f));
            },
        }
    }
}

/// A pass whose spawns name their own entity addresses a subject exactly
/// once when the scene names every entity once and the subject's entity
/// maps to a spawn.
proof fn lemma_filter_map_count_one(
    s: Seq<EntityView>,
    f: spec_fn(EntityView) -> Option<ProxySpawn>,
    id: u64,
    i: int,
)
    requires
        forall|j: int|
            0 <= j < s.len() ==> (f(#[trigger] s[j]) matches Some(sp) ==> sp.subject == s[j].id),
        wf(s),
        0 <= i < s.len(),
        s[i].id == id,
        f(s[i]) is Some,
    ensures
        count_subject(s.filter_map(f), id) == 1,
    decreases s.len(),
{
    let pred = |sp: ProxySpawn| sp.subject == id;
    reveal(Seq::filter);
    assert forall|j: int|
        0 <= j < s.drop_last().len() implies (f(#[trigger] s.drop_last()[j]) matches Some(sp)
        ==> sp.subject == s.drop_last()[j].id) by {
        assert(s.drop_last()[j] == s[j]);
    }
    if i == s.len() - 1 {
        match f(s.last()) {
            Some(sp) => {
                assert(sp.subject == id);
                assert(s.filter_map(f) == s.drop_last().filter_map(f) + seq![sp]);
                assert forall|j: int|
                    0 <= j < s.drop_last().len() implies (f(
                    #[trigger] s.drop_last()[j]) matches Some(spx) ==> spx.subject != id) by {
                    assert(s.drop_last()[j] == s[j]);
                    assert(s[j].id != id);
                }
                lemma_filter_map_count_zero(s.drop_last(), f, id);
                lemma_count_subject_add(s.drop_last().filter_map(f), seq![sp], id);
                assert(seq![sp].filter(pred) =~= seq![sp]) by {
                    reveal_with_fuel(Seq::filter, 2);
                    assert(seq![sp].drop_last() =~= Seq::<ProxySpawn>::empty());
                }
            },
            None => {},
        }
    } else {
        lemma_filter_map_count_one(s.drop_last(), f, id, i);
        match f(s.last()) {
            Some(sp) => {
                assert(sp.subject == s.last().id);
                assert(s.last().id != id);
                assert(s.filter_map(f) == s.drop_last().filter_map(f) + seq![sp]);
                lemma_count_subject_add(s.drop_last().filter_map(f), seq![sp], id);
                assert(seq![sp].filter(pred) =~= Seq::<ProxySpawn>::empty()) by {
                    reveal_with_fuel(Seq::filter, 2);
                    assert(seq![sp].drop_last() =~= Seq::<ProxySpawn>::empty());
                }
            },
            None => {
                assert(s.filter_map(f) == s.drop_last().filter_map(f));
            },
        }
    }
}

/// Coverage: a subject of exactly one kind — directional, spot or point
/// light, camera, or meshless-tagged entity — with no proxy child receives
/// exactly one spawn from one reconciliation round, and that spawn selects
/// the icon or visual of its kind.
pub proof fn lemma_coverage(s: Seq<EntityView>, icons: EditorIconAssets, i: int)
    requires
        wf(s),
        0 <= i < s.len(),
        !has_proxy_child(s, s[i]),
        is_light_subject(s[i]) || is_camera_subject(s[i]) || is_custom_subject(s[i]),
        is_light_subject(s[i]) ==> !is_camera_subject(s[i]) && !is_custom_subject(s[i]),
        is_camera_subject(s[i]) ==> !is_custom_subject(s[i]),
    ensures
        count_subject(reconcile_spawns(s, icons), s[i].id) == 1,
        is_light_subject(s[i]) ==> (s[i].light matches Some(k) && reconcile_spawns(
            s,
            icons,
        ).contains(
            billboard_proxy(
                s[i].id,
                MeshChoice::Handle(icons.square),
                TextureChoice::Handle(light_icon(icons, k)),
                icons,
            ),
        )),
        is_camera_subject(s[i]) ==> reconcile_spawns(s, icons).contains(
            billboard_proxy(
                s[i].id,
                MeshChoice::Handle(icons.square),
                TextureChoice::Handle(icons.camera),
                icons,
            ),
        ),
        is_custom_subject(s[i]) ==> (custom_spawn(s, icons, s[i]) matches Some(sp)
            && reconcile_spawns(s, icons).contains(sp)),
{
    let plan = reconcile_spawns(s, icons);
    let id = s[i].id;
    let f_light = |e: EntityView| light_spawn(s, icons, e);
    let f_cam = |e: EntityView| camera_spawn(s, icons, e);
    let f_custom = |e: EntityView| custom_spawn(s, icons, e);
    let a1 = s.filter_map(f_light);
    let a2 = s.filter_map(f_cam);
    let b = s.filter_map(f_custom);
    lemma_count_subject_add(a1 + a2, b, id);
    lemma_count_subject_add(a1, a2, id);
    assert(plan == (a1 + a2) + b);
    if is_light_subject(s[i]) {
        lemma_filter_map_count_one(s, f_light, id, i);
        assert forall|j: int|
            0 <= j < s.len() implies (f_cam(#[trigger] s[j]) matches Some(sp) ==> sp.subject
            != id) by {
            if j != i {
                assert(s[j].id != id);
            }
        }
        lemma_filter_map_count_zero(s, f_cam, id);
        assert forall|j: int|
            0 <= j < s.len() implies (f_custom(#[trigger] s[j]) matches Some(sp) ==> sp.subject
            != id) by {
            if j != i {
                assert(s[j].id != id);
            }
        }
        lemma_filter_map_count_zero(s, f_custom, id);
        assert(s.contains(s[i]));
        lemma_filter_map_has(s, f_light, s[i]);
        match s[i].light {
            Some(kval) => {
                let bp = billboard_proxy(
                    id,
                    MeshChoice::Handle(icons.square),
                    TextureChoice::Handle(light_icon(icons, kval)),
                    icons,
                );
                assert(f_light(s[i]) == Some(bp));
                let j = choose|j: int| 0 <= j < a1.len() && a1[j] == bp;
                assert(plan[j] == bp);
            },
            None => {},
        }
    }
    if is_camera_subject(s[i]) {
        lemma_filter_map_count_one(s, f_cam, id, i);
        assert forall|j: int|
            0 <= j < s.len() implies (f_light(#[trigger] s[j]) matches Some(sp) ==> sp.subject
            != id) by {
            if j != i {
                assert(s[j].id != id);
            }
        }
        lemma_filter_map_count_zero(s, f_light, id);
        assert forall|j: int|
            0 <= j < s.len() implies (f_custom(#[trigger] s[j]) matches Some(sp) ==> sp.subject
            != id) by {
            if j != i {
                assert(s[j].id != id);
            }
        }
        lemma_filter_map_count_zero(s, f_custom, id);
        assert(s.contains(s[i]));
        lemma_filter_map_has(s, f_cam, s[i]);
        let bp = billboard_proxy(
            id,
            MeshChoice::Handle(icons.square),
            TextureChoice::Handle(icons.camera),
            icons,
        );
        let j = choose|j: int| 0 <= j < a2.len() && a2[j] == bp;
        assert(plan[a1.len() + j] == bp);
    }
    if is_custom_subject(s[i]) {
        lemma_filter_map_count_one(s, f_custom, id, i);
        assert forall|j: int|
            0 <= j < s.len() implies (f_light(#[trigger] s[j]) matches Some(sp) ==> sp.subject
            != id) by {
            if j != i {
                assert(s[j].id != id);
            }
        }
        lemma_filter_map_count_zero(s, f_light, id);
        assert forall|j: int|
            0 <= j < s.len() implies (f_cam(#[trigger] s[j]) matches Some(sp) ==> sp.subject
            != id) by {
            if j != i {
                assert(s[j].id != id);
            }
        }
        lemma_filter_map_count_zero(s, f_cam, id);
        assert(s.contains(s[i]));
        lemma_filter_map_has(s, f_custom, s[i]);
        let sp = choose|sp: ProxySpawn| f_custom(s[i]) == Some(sp);
        let j = choose|j: int| 0 <= j < b.len() && b[j] == sp;
        assert(plan[a1.len() + a2.len() + j] == sp);
    }
}

/// No double spawn: a subject that already has a marker-carrying proxy
/// child receives nothing from a reconciliation round, whatever its kind.
pub proof fn lemma_no_double_spawn(s: Seq<EntityView>, icons: EditorIconAssets, i: int)
    requires
        wf(s),
        0 <= i < s.len(),
        has_proxy_child(s, s[i]),
    ensures
        count_subject(reconcile_spawns(s, icons), s[i].id) == 0,
{
    let id = s[i].id;
    let f_light = |e: EntityView| light_spawn(s, icons, e);
    let f_cam = |e: EntityView| camera_spawn(s, icons, e);
    let f_custom = |e: EntityView| custom_spawn(s, icons, e);
    let a1 = s.filter_map(f_light);
    let a2 = s.filter_map(f_cam);
    let b = s.filter_map(f_custom);
    lemma_count_subject_add(a1 + a2, b, id);
    lemma_count_subject_add(a1, a2, id);
    assert(reconcile_spawns(s, icons) == (a1 + a2) + b);
    assert forall|j: int| 0 <= j < s.len() implies (f_light(#[trigger] s[j]) matches Some(sp)
        ==> sp.subject != id) by {
        if j < i {
            assert(s[j].id != s[i].id);
        }
        if i < j {
            assert(s[i].id != s[j].id);
        }
    }
    lemma_filter_map_count_zero(s, f_light, id);
    assert forall|j: int| 0 <= j < s.len() implies (f_cam(#[trigger] s[j]) matches Some(sp)
        ==> sp.subject != id) by {
        if j < i {
            assert(s[j].id != s[i].id);
        }
        if i < j {
            assert(s[i].id != s[j].id);
        }
    }
    lemma_filter_map_count_zero(s, f_cam, id);
    assert forall|j: int| 0 <= j < s.len() implies (f_custom(#[trigger] s[j]) matches Some(sp)
        ==> sp.subject != id) by {
        if j < i {
            assert(s[j].id != s[i].id);
        }
        if i < j {
            assert(s[i].id != s[j].id);
        }
    }
    lemma_filter_map_count_zero(s, f_custom, id);
}

} // verus!
