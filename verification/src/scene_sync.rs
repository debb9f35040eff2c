//! Keeping what a renderer shows in step with the presentation state: which shown items stay,
//! which go, which appear, and with what transition.
use vstd::prelude::*;
use crate::ast::{opt_transition_view, SpecTransition, TextEffect, Transition};
use crate::presentation::{PresentationCommand, SpecCommand};
use crate::player::commands_view;
use crate::text::str_eq;
use crate::timing::{TransitionAlpha, TransitionPhase};

verus! {

/// The indices below `n`, in order, but `keep`.
pub open spec fn indices_except(n: nat, keep: Option<int>) -> Seq<usize>
    decreases n,
{
    if n == 0 {
        Seq::empty()
    } else {
        let rest = indices_except((n - 1) as nat, keep);
        if keep == Some((n - 1) as int) { rest } else { rest.push((n - 1) as usize) }
    }
}

/// The first index at or after `i` whose entry is `true`.
pub open spec fn first_match(matches: Seq<bool>, i: int) -> Option<int>
    decreases matches.len() - i,
{
    if i < 0 || i >= matches.len() {
        None
    } else if matches[i] {
        Some(i)
    } else {
        first_match(matches, i + 1)
    }
}

/// What to do with the shown items of a kind of which at most one is wanted: remove these,
/// and show the wanted one anew or not.
pub struct MarkerPlan {
    pub despawn: Vec<usize>,
    pub spawn: bool,
}

/// Plans shown items against the one wanted (`wanted`), where `matches[i]` says whether shown
/// item `i` is the wanted one: the first match stays and every other item goes; without a
/// match the wanted item is shown anew. Nothing wanted removes everything.
pub fn plan_single(matches: &[bool], wanted: bool) -> (r: MarkerPlan)
    ensures
        wanted ==> r.despawn@ == indices_except(matches@.len(), first_match(matches@, 0))
            && r.spawn == (first_match(matches@, 0) is None),
        !wanted ==> r.despawn@ == indices_except(matches@.len(), None) && !r.spawn,
{
    let n = matches.len();
    let mut keep: Option<usize> = None;
    if wanted {
        let mut i: usize = 0;
        while i < n
            invariant_except_break
                keep is None,
            invariant
                n == matches@.len(),
                i <= n,
                first_match(matches@, 0) == first_match(matches@, i as int),
            ensures
                keep == (match first_match(matches@, 0) {
                    Some(k) => Some(k as usize),
                    None => None::<usize>,
                }),
                first_match(matches@, 0) matches Some(k) ==> 0 <= k < n,
            decreases n - i,
        {
            if matches[i] {
                keep = Some(i);
                break;
            }
            i = i + 1;
        }
    }
    let ghost kept: Option<int> = match keep {
        Some(k) => Some(k as int),
        None => None,
    };
    let mut despawn: Vec<usize> = Vec::new();
    let mut j: usize = 0;
    while j < n
        invariant
            j <= n,
            despawn@ == indices_except(j as nat, kept),
            kept == (match keep {
                Some(k) => Some(k as int),
                None => None::<int>,
            }),
        decreases n - j,
    {
        let skip = match keep {
            Some(k) => k == j,
            None => false,
        };
        if !skip {
            despawn.push(j);
        }
        j = j + 1;
    }
    MarkerPlan { despawn, spawn: wanted && keep.is_none() }
}

// ---------------------------------------------------------------------------
// Transitions and effects of the latest changes.
// ---------------------------------------------------------------------------

/// The transition of the latest background change among `cs` that has one.
pub open spec fn latest_background_transition(cs: Seq<SpecCommand>) -> Option<SpecTransition>
    decreases cs.len(),
{
    if cs.len() == 0 {
        None
    } else {
        match cs.last() {
            SpecCommand::SetBackground { transition: Some(t), .. } => Some(t),
            _ => latest_background_transition(cs.drop_last()),
        }
    }
}

/// The transition of the latest change of sprite `tag` among `cs` that has one.
pub open spec fn latest_sprite_transition(cs: Seq<SpecCommand>, tag: Seq<char>) -> Option<SpecTransition>
    decreases cs.len(),
{
    if cs.len() == 0 {
        None
    } else {
        match cs.last() {
            SpecCommand::ShowSprite { tag: t, transition: Some(tr), .. } => if t == tag {
                Some(tr)
            } else {
                latest_sprite_transition(cs.drop_last(), tag)
            },
            _ => latest_sprite_transition(cs.drop_last(), tag),
        }
    }
}

/// The text effect of the latest dialogue line among `cs`, or none.
pub open spec fn latest_effect(cs: Seq<SpecCommand>) -> TextEffect
    decreases cs.len(),
{
    if cs.len() == 0 {
        TextEffect::Instant
    } else {
        match cs.last() {
            SpecCommand::ShowDialogue { effect, .. } => effect,
            _ => latest_effect(cs.drop_last()),
        }
    }
}

/// The transition a new background appears with: that of the latest background change among
/// the commands applied this frame that has one.
pub fn background_transition(pending: &[PresentationCommand]) -> (r: Option<Transition>)
    ensures
        opt_transition_view(r) == latest_background_transition(commands_view(pending@)),
{
    let mut i = pending.len();
    assert(pending@.take(i as int) =~= pending@);
    while i > 0
        invariant
            i <= pending@.len(),
            latest_background_transition(commands_view(pending@))
                == latest_background_transition(commands_view(pending@.take(i as int))),
        decreases i,
    {
        let ghost before = commands_view(pending@.take(i as int));
        assert(before.drop_last() =~= commands_view(pending@.take(i - 1)));
        assert(before.last() == pending@[i - 1]@);
        if let PresentationCommand::SetBackground { transition: Some(t), .. } = &pending[i - 1] {
            return Some(Transition { kind: t.kind.clone(), duration_ms: t.duration_ms });
        }
        i = i - 1;
    }
    None
}

/// The transition a sprite appears with: that of its latest change among the commands applied
/// this frame that has one.
pub fn sprite_transition(pending: &[PresentationCommand], tag: &str) -> (r: Option<Transition>)
    ensures
        opt_transition_view(r) == latest_sprite_transition(commands_view(pending@), tag@),
{
    let mut i = pending.len();
    assert(pending@.take(i as int) =~= pending@);
    while i > 0
        invariant
            i <= pending@.len(),
            latest_sprite_transition(commands_view(pending@), tag@)
                == latest_sprite_transition(commands_view(pending@.take(i as int)), tag@),
        decreases i,
    {
        let ghost before = commands_view(pending@.take(i as int));
        assert(before.drop_last() =~= commands_view(pending@.take(i - 1)));
        assert(before.last() == pending@[i - 1]@);
        if let PresentationCommand::ShowSprite { tag: t, transition: Some(tr), .. } = &pending[i - 1] {
            if str_eq(t.as_str(), tag) {
                return Some(Transition { kind: tr.kind.clone(), duration_ms: tr.duration_ms });
            }
        }
        i = i - 1;
    }
    None
}

/// The effect a new dialogue line appears with: that of the latest dialogue command applied
/// this frame, or none.
pub fn dialogue_effect(pending: &[PresentationCommand]) -> (r: TextEffect)
    ensures
        r == latest_effect(commands_view(pending@)),
{
    let mut i = pending.len();
    assert(pending@.take(i as int) =~= pending@);
    while i > 0
        invariant
            i <= pending@.len(),
            latest_effect(commands_view(pending@)) == latest_effect(commands_view(pending@.take(i as int))),
        decreases i,
    {
        let ghost before = commands_view(pending@.take(i as int));
        assert(before.drop_last() =~= commands_view(pending@.take(i - 1)));
        assert(before.last() == pending@[i - 1]@);
        if let PresentationCommand::ShowDialogue { effect, .. } = &pending[i - 1] {
            return *effect;
        }
        i = i - 1;
    }
    TextEffect::Instant
}

// ---------------------------------------------------------------------------
// How a changed item leaves and appears.
// ---------------------------------------------------------------------------

/// How a changed background or sprite replaces the old one: at once, by fading the old one out
/// before the new one fades in, or by dissolving one into the other, over some milliseconds.
#[derive(Clone, Copy, Debug, PartialEq, Eq, Structural)]
pub enum TransitionPlan {
    Cut,
    Fade(u32),
    Dissolve(u32),
}

/// The plan for a change's transition: a fade or a dissolve with a positive duration, and a
/// cut for anything else.
pub open spec fn plan_of(t: Option<SpecTransition>) -> TransitionPlan {
    match t {
        Some(t) => if t.duration_ms == 0 {
            TransitionPlan::Cut
        } else if t.kind == "fade"@ {
            TransitionPlan::Fade(t.duration_ms)
        } else if t.kind == "dissolve"@ {
            TransitionPlan::Dissolve(t.duration_ms)
        } else {
            TransitionPlan::Cut
        },
        None => TransitionPlan::Cut,
    }
}

/// Plans a change's transition.
pub fn transition_plan(t: &Option<Transition>) -> (r: TransitionPlan)
    ensures
        r == plan_of(opt_transition_view(*t)),
{
    match t {
        Some(t) => if t.duration_ms == 0 {
            TransitionPlan::Cut
        } else if str_eq(t.kind.as_str(), "fade") {
            TransitionPlan::Fade(t.duration_ms)
        } else if str_eq(t.kind.as_str(), "dissolve") {
            TransitionPlan::Dissolve(t.duration_ms)
        } else {
            TransitionPlan::Cut
        },
        None => TransitionPlan::Cut,
    }
}

/// What to do when a transitioning item's time is up: remove it (an item leaving), and
/// whether it waits, hidden, until the items fading out are gone.
#[derive(Clone, Copy, Debug, Default, PartialEq, Eq, Structural)]
pub struct TransitionFlags {
    pub despawn_after: bool,
    pub await_fade_in: bool,
}

/// How the replaced items leave: faded or dissolved out and then removed; `None` for a cut,
/// where they are removed at once.
pub fn outgoing(plan: TransitionPlan) -> (r: Option<(TransitionAlpha, TransitionFlags)>)
    ensures
        r == match plan {
            TransitionPlan::Cut => None,
            TransitionPlan::Fade(d) => Some((
                TransitionAlpha { elapsed_ms: 0, duration_ms: d, phase: TransitionPhase::FadeOut },
                TransitionFlags { despawn_after: true, await_fade_in: false },
            )),
            TransitionPlan::Dissolve(d) => Some((
                TransitionAlpha { elapsed_ms: 0, duration_ms: d, phase: TransitionPhase::DissolveOut },
                TransitionFlags { despawn_after: true, await_fade_in: false },
            )),
        },
{
    match plan {
        TransitionPlan::Cut => None,
        TransitionPlan::Fade(d) => Some((
            TransitionAlpha { elapsed_ms: 0, duration_ms: d, phase: TransitionPhase::FadeOut },
            TransitionFlags { despawn_after: true, await_fade_in: false },
        )),
        TransitionPlan::Dissolve(d) => Some((
            TransitionAlpha { elapsed_ms: 0, duration_ms: d, phase: TransitionPhase::DissolveOut },
            TransitionFlags { despawn_after: true, await_fade_in: false },
        )),
    }
}

/// How the new item appears: after a fade it fades in once the old items are gone, hidden
/// until then (the last field); after a dissolve it dissolves in at once; `None` for a cut,
/// where it is shown at once.
pub fn incoming(plan: TransitionPlan) -> (r: Option<(TransitionAlpha, TransitionFlags, bool)>)
    ensures
        r == match plan {
            TransitionPlan::Cut => None,
            TransitionPlan::Fade(d) => Some((
                TransitionAlpha { elapsed_ms: 0, duration_ms: d, phase: TransitionPhase::FadeIn },
                TransitionFlags { despawn_after: false, await_fade_in: true },
                true,
            )),
            TransitionPlan::Dissolve(d) => Some((
                TransitionAlpha { elapsed_ms: 0, duration_ms: d, phase: TransitionPhase::DissolveIn },
                TransitionFlags { despawn_after: false, await_fade_in: false },
                false,
            )),
        },
{
    match plan {
        TransitionPlan::Cut => None,
        TransitionPlan::Fade(d) => Some((
            TransitionAlpha { elapsed_ms: 0, duration_ms: d, phase: TransitionPhase::FadeIn },
            TransitionFlags { despawn_after: false, await_fade_in: true },
            true,
        )),
        TransitionPlan::Dissolve(d) => Some((
            TransitionAlpha { elapsed_ms: 0, duration_ms: d, phase: TransitionPhase::DissolveIn },
            TransitionFlags { despawn_after: false, await_fade_in: false },
            false,
        )),
    }
}

/// A sum of milliseconds, at most `u32::MAX`.
pub open spec fn ms_after(a: u32, b: u32) -> u32 {
    if a + b > u32::MAX { u32::MAX } else { (a + b) as u32 }
}

/// Whether a fade-out is still running after `delta_ms` more.
pub open spec fn fading_out(t: TransitionAlpha, delta_ms: u32) -> bool {
    t.phase == TransitionPhase::FadeOut && ms_after(t.elapsed_ms, delta_ms) < t.duration_ms
}

/// Whether any fade-out among running transitions is still running after `delta_ms` more.
pub fn fade_out_running(items: &[TransitionAlpha], delta_ms: u32) -> (r: bool)
    ensures
        r == exists|i: int| 0 <= i < items@.len() && fading_out(#[trigger] items@[i], delta_ms),
{
    let mut i: usize = 0;
    while i < items.len()
        invariant
            i <= items@.len(),
            forall|k: int| 0 <= k < i ==> !fading_out(#[trigger] items@[k], delta_ms),
        decreases items@.len() - i,
    {
        let t = &items[i];
        if t.phase == TransitionPhase::FadeOut && t.elapsed_ms.saturating_add(delta_ms) < t.duration_ms {
            assert(fading_out(items@[i as int], delta_ms));
            return true;
        }
        i = i + 1;
    }
    false
}

/// What a frame did to a transitioning item.
#[derive(Clone, Copy, Debug, PartialEq, Eq, Structural)]
pub enum TickOutcome {
    /// It waits, hidden, for a fade-out to end.
    Waiting,
    /// It runs on; `true` when it is to be shown from now on.
    Running(bool),
    /// Its time is up and it leaves.
    Despawn,
    /// Its time is up and it stays, fully shown (`true` when it is to be shown from now on).
    Finished(bool),
}

/// One frame of `delta_ms` for a transitioning item. An item waiting for a fade-out waits
/// while one runs; then it is shown and its time runs; when the time is up an item leaving is
/// removed and any other keeps showing without the transition.
pub fn tick_transition(alpha: &mut TransitionAlpha, flags: &mut TransitionFlags, delta_ms: u32, fade_out_active: bool) -> (r: TickOutcome)
    ensures
        old(flags).await_fade_in && fade_out_active ==> r == TickOutcome::Waiting && *final(alpha) == *old(alpha)
            && *final(flags) == *old(flags),
        !(old(flags).await_fade_in && fade_out_active) ==> {
            let shown = old(flags).await_fade_in;
            &&& *final(alpha) == (TransitionAlpha { elapsed_ms: ms_after(old(alpha).elapsed_ms, delta_ms), ..*old(alpha) })
            &&& *final(flags) == (TransitionFlags { await_fade_in: false, ..*old(flags) })
            &&& r == if final(alpha).elapsed_ms < final(alpha).duration_ms {
                TickOutcome::Running(shown)
            } else if old(flags).despawn_after {
                TickOutcome::Despawn
            } else {
                TickOutcome::Finished(shown)
            }
        },
{
    if flags.await_fade_in && fade_out_active {
        return TickOutcome::Waiting;
    }
    let shown = flags.await_fade_in;
    flags.await_fade_in = false;
    alpha.elapsed_ms = alpha.elapsed_ms.saturating_add(delta_ms);
    if alpha.elapsed_ms < alpha.duration_ms {
        TickOutcome::Running(shown)
    } else if flags.despawn_after {
        TickOutcome::Despawn
    } else {
        TickOutcome::Finished(shown)
    }
}

// ---------------------------------------------------------------------------
// Sprites.
// ---------------------------------------------------------------------------

/// A sprite as shown: its tag, attributes and stage position.
#[derive(Clone, Debug, PartialEq, Eq)]
pub struct SpriteKey {
    pub tag: String,
    pub attrs: Vec<String>,
    pub position: String,
}

/// Model of a shown sprite.
pub struct SpecSpriteKey {
    pub tag: Seq<char>,
    pub attrs: Seq<Seq<char>>,
    pub position: Seq<char>,
}

impl View for SpriteKey {
    type V = SpecSpriteKey;

    open spec fn view(&self) -> SpecSpriteKey {
        SpecSpriteKey { tag: self.tag@, attrs: self.attrs.deep_view(), position: self.position@ }
    }
}

/// Model of a list of sprites.
pub open spec fn keys_view(v: Seq<SpriteKey>) -> Seq<SpecSpriteKey> {
    v.map_values(|k: SpriteKey| k@)
}

fn same_strings(a: &Vec<String>, b: &Vec<String>) -> (r: bool)
    ensures
        r == (a.deep_view() == b.deep_view()),
{
    proof {
        crate::text::lemma_strings_deep_view(*a);
        crate::text::lemma_strings_deep_view(*b);
    }
    if a.len() != b.len() {
        assert(a.deep_view().len() != b.deep_view().len());
        return false;
    }
    let mut i: usize = 0;
    while i < a.len()
        invariant
            a@.len() == b@.len(),
            i <= a@.len(),
            forall|j: int| 0 <= j < i ==> a.deep_view()[j] == b.deep_view()[j],
        decreases a@.len() - i,
    {
        if !str_eq(a[i].as_str(), b[i].as_str()) {
            assert(a.deep_view()[i as int] != b.deep_view()[i as int]);
            return false;
        }
        i = i + 1;
    }
    assert(a.deep_view() =~= b.deep_view());
    true
}

fn same_sprite(a: &SpriteKey, b: &SpriteKey) -> (r: bool)
    ensures
        r == (a@ == b@),
{
    str_eq(a.tag.as_str(), b.tag.as_str()) && same_strings(&a.attrs, &b.attrs)
        && str_eq(a.position.as_str(), b.position.as_str())
}

/// Whether some sprite of `ks` carries `tag`.
pub open spec fn has_tag(ks: Seq<SpecSpriteKey>, tag: Seq<char>) -> bool {
    exists|j: int| 0 <= j < ks.len() && (#[trigger] ks[j]).tag == tag
}

/// Whether `ks` holds the sprite `k` exactly.
pub open spec fn holds(ks: Seq<SpecSpriteKey>, k: SpecSpriteKey) -> bool {
    exists|j: int| 0 <= j < ks.len() && #[trigger] ks[j] == k
}

/// The indices below `n` of the shown sprites whose tag no wanted sprite carries.
pub open spec fn untagged(wanted: Seq<SpecSpriteKey>, shown: Seq<SpecSpriteKey>, n: nat) -> Seq<usize>
    decreases n,
{
    if n == 0 {
        Seq::empty()
    } else {
        let rest = untagged(wanted, shown, (n - 1) as nat);
        if has_tag(wanted, shown[n - 1].tag) { rest } else { rest.push((n - 1) as usize) }
    }
}

/// The indices below `n` of the sprites of `ks` that carry `tag`.
pub open spec fn tagged(ks: Seq<SpecSpriteKey>, tag: Seq<char>, n: nat) -> Seq<usize>
    decreases n,
{
    if n == 0 {
        Seq::empty()
    } else {
        let rest = tagged(ks, tag, (n - 1) as nat);
        if ks[n - 1].tag == tag { rest.push((n - 1) as usize) } else { rest }
    }
}

/// The indices below `n` of the sprites of `ks` that `others` does not hold exactly.
pub open spec fn missing(ks: Seq<SpecSpriteKey>, others: Seq<SpecSpriteKey>, n: nat) -> Seq<usize>
    decreases n,
{
    if n == 0 {
        Seq::empty()
    } else {
        let rest = missing(ks, others, (n - 1) as nat);
        if holds(others, ks[n - 1]) { rest } else { rest.push((n - 1) as usize) }
    }
}

fn has_tag_exec(ks: &[SpriteKey], tag: &str) -> (r: bool)
    ensures
        r == has_tag(keys_view(ks@), tag@),
{
    let mut j: usize = 0;
    while j < ks.len()
        invariant
            j <= ks@.len(),
            forall|k: int| 0 <= k < j ==> (#[trigger] keys_view(ks@)[k]).tag != tag@,
        decreases ks@.len() - j,
    {
        if str_eq(ks[j].tag.as_str(), tag) {
            assert(keys_view(ks@)[j as int].tag == tag@);
            return true;
        }
        j = j + 1;
    }
    false
}

fn holds_exec(ks: &[SpriteKey], k: &SpriteKey) -> (r: bool)
    ensures
        r == holds(keys_view(ks@), k@),
{
    let mut j: usize = 0;
    while j < ks.len()
        invariant
            j <= ks@.len(),
            forall|i: int| 0 <= i < j ==> #[trigger] keys_view(ks@)[i] != k@,
        decreases ks@.len() - j,
    {
        if same_sprite(&ks[j], k) {
            assert(keys_view(ks@)[j as int] == k@);
            return true;
        }
        j = j + 1;
    }
    false
}

fn tagged_exec(ks: &[SpriteKey], tag: &str) -> (r: Vec<usize>)
    ensures
        r@ == tagged(keys_view(ks@), tag@, ks@.len()),
{
    let mut r: Vec<usize> = Vec::new();
    let mut j: usize = 0;
    while j < ks.len()
        invariant
            j <= ks@.len(),
            r@ == tagged(keys_view(ks@), tag@, j as nat),
        decreases ks@.len() - j,
    {
        if str_eq(ks[j].tag.as_str(), tag) {
            r.push(j);
        }
        j = j + 1;
    }
    r
}

/// Marker sprites against the presentation's sprites (whose tags differ): the markers that no
/// wanted sprite matches exactly go, and the wanted sprites that no marker matches exactly
/// appear, in the order given.
pub fn marker_sprite_plan(wanted: &[SpriteKey], shown: &[SpriteKey]) -> (r: (Vec<usize>, Vec<usize>))
    ensures
        r.0@ == missing(keys_view(shown@), keys_view(wanted@), shown@.len()),
        r.1@ == missing(keys_view(wanted@), keys_view(shown@), wanted@.len()),
{
    let mut gone: Vec<usize> = Vec::new();
    let mut i: usize = 0;
    while i < shown.len()
        invariant
            i <= shown@.len(),
            gone@ == missing(keys_view(shown@), keys_view(wanted@), i as nat),
        decreases shown@.len() - i,
    {
        if !holds_exec(wanted, &shown[i]) {
            gone.push(i);
        }
        i = i + 1;
    }
    let mut new: Vec<usize> = Vec::new();
    let mut j: usize = 0;
    while j < wanted.len()
        invariant
            j <= wanted@.len(),
            new@ == missing(keys_view(wanted@), keys_view(shown@), j as nat),
        decreases wanted@.len() - j,
    {
        if !holds_exec(shown, &wanted[j]) {
            new.push(j);
        }
        j = j + 1;
    }
    (gone, new)
}

/// A sprite to show anew: which wanted sprite, and the shown sprites with its tag that it
/// replaces.
pub struct SpriteChange {
    pub wanted: usize,
    pub replaced: Vec<usize>,
}

/// The changes below `n`: each wanted sprite not shown exactly, with the shown sprites of its
/// tag.
pub open spec fn changes_of(wanted: Seq<SpecSpriteKey>, shown: Seq<SpecSpriteKey>, n: nat) -> Seq<(usize, Seq<usize>)>
    decreases n,
{
    if n == 0 {
        Seq::empty()
    } else {
        let rest = changes_of(wanted, shown, (n - 1) as nat);
        if holds(shown, wanted[n - 1]) {
            rest
        } else {
            rest.push(((n - 1) as usize, tagged(shown, wanted[n - 1].tag, shown.len())))
        }
    }
}

/// Model of a list of changes.
pub open spec fn changes_view(v: Seq<SpriteChange>) -> Seq<(usize, Seq<usize>)> {
    v.map_values(|c: SpriteChange| (c.wanted, c.replaced@))
}

/// Rendered sprites against the wanted ones: the rendered sprites whose tag is no longer
/// wanted go at once; each wanted sprite not rendered exactly is rendered anew, replacing the
/// rendered sprites of its tag (which leave with its transition).
pub fn render_sprite_plan(wanted: &[SpriteKey], shown: &[SpriteKey]) -> (r: (Vec<usize>, Vec<SpriteChange>))
    ensures
        r.0@ == untagged(keys_view(wanted@), keys_view(shown@), shown@.len()),
        changes_view(r.1@) == changes_of(keys_view(wanted@), keys_view(shown@), wanted@.len()),
{
    let mut gone: Vec<usize> = Vec::new();
    let mut i: usize = 0;
    while i < shown.len()
        invariant
            i <= shown@.len(),
            gone@ == untagged(keys_view(wanted@), keys_view(shown@), i as nat),
        decreases shown@.len() - i,
    {
        if !has_tag_exec(wanted, shown[i].tag.as_str()) {
            gone.push(i);
        }
        i = i + 1;
    }
    let mut changes: Vec<SpriteChange> = Vec::new();
    let mut j: usize = 0;
    while j < wanted.len()
        invariant
            j <= wanted@.len(),
            changes_view(changes@) == changes_of(keys_view(wanted@), keys_view(shown@), j as nat),
        decreases wanted@.len() - j,
    {
        if !holds_exec(shown, &wanted[j]) {
            let replaced = tagged_exec(shown, wanted[j].tag.as_str());
            let ghost before = changes@;
            changes.push(SpriteChange { wanted: j, replaced });
            assert(changes_view(changes@) =~= changes_view(before).push((j, replaced@)));
        }
        j = j + 1;
    }
    (gone, changes)
}

/// Where on the stage a sprite stands.
#[derive(Clone, Copy, Debug, PartialEq, Eq, Structural)]
pub enum StagePlace {
    Left,
    Center,
    Right,
}

/// The stage place a position names: `left`, `right`, and the centre for anything else.
pub fn stage_place(position: &str) -> (r: StagePlace)
    ensures
        r == if position@ == "left"@ {
            StagePlace::Left
        } else if position@ == "right"@ {
            StagePlace::Right
        } else {
            StagePlace::Center
        },
{
    if str_eq(position, "left") {
        StagePlace::Left
    } else if str_eq(position, "right") {
        StagePlace::Right
    } else {
        StagePlace::Center
    }
}

} // verus!
