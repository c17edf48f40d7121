//! How a draft of a game's themes is changed before it is published.
use vstd::prelude::*;

use crate::db::frontend::revision::{
    next_revision, FrontendBinding, FrontendFeatureActivation, RevisionContents,
};
use crate::db::frontend::FrontendFeature;
use crate::error::RbInternalError;
use crate::text::same;

verus! {

/// Where a binding stands: which surface it draws in which scope.
pub struct Place {
    pub surface: Seq<char>,
    pub scope_kind: Seq<char>,
    pub scope_id: i32,
}

impl FrontendBinding {
    /// Where the binding stands.
    pub open spec fn place(self) -> Place {
        Place {
            surface: self.surface@,
            scope_kind: self.scope_kind@,
            scope_id: self.scope_id,
        }
    }
}

/// Whether no two bindings stand at one place.
pub open spec fn distinct_places(bindings: Seq<FrontendBinding>) -> bool {
    forall|i: int, j: int|
        0 <= i < j < bindings.len() ==> (#[trigger] bindings[i]).place() != (
        #[trigger] bindings[j]).place()
}

/// The first binding at a place, or behind all of them where there is none.
pub open spec fn index_at(bindings: Seq<FrontendBinding>, place: Place) -> int
    decreases bindings.len(),
{
    if bindings.len() == 0 {
        0
    } else {
        let before = index_at(bindings.drop_last(), place);
        if before < bindings.len() - 1 {
            before
        } else if bindings.last().place() == place {
            bindings.len() - 1
        } else {
            bindings.len() as int
        }
    }
}

proof fn lemma_index_at(bindings: Seq<FrontendBinding>, place: Place)
    ensures
        0 <= index_at(bindings, place) <= bindings.len(),
        forall|k: int|
            0 <= k < index_at(bindings, place) ==> (#[trigger] bindings[k]).place() != place,
        index_at(bindings, place) < bindings.len() ==> bindings[index_at(bindings, place)].place()
            == place,
    decreases bindings.len(),
{
    if bindings.len() > 0 {
        let rest = bindings.drop_last();
        lemma_index_at(rest, place);
        assert forall|k: int| 0 <= k < index_at(bindings, place) implies (
        #[trigger] bindings[k]).place() != place by {
            if k < rest.len() {
                assert(rest[k] == bindings[k]);
            }
        }
        if index_at(rest, place) < rest.len() {
            assert(rest[index_at(rest, place)] == bindings[index_at(rest, place)]);
        }
    }
}

fn find_binding(
    bindings: &Vec<FrontendBinding>,
    surface: &str,
    scope_kind: &str,
    scope_id: i32,
) -> (r: usize)
    ensures
        r == index_at(
            bindings@,
            (Place { surface: surface@, scope_kind: scope_kind@, scope_id }),
        ),
        r <= bindings@.len(),
{
    let ghost place = Place { surface: surface@, scope_kind: scope_kind@, scope_id };
    let mut i: usize = 0;
    while i < bindings.len()
        invariant
            i <= bindings@.len(),
            place == (Place { surface: surface@, scope_kind: scope_kind@, scope_id }),
            forall|k: int| 0 <= k < i ==> (#[trigger] bindings@[k]).place() != place,
        decreases bindings@.len() - i,
    {
        if same(bindings[i].surface.as_str(), surface) && same(
            bindings[i].scope_kind.as_str(),
            scope_kind,
        ) && bindings[i].scope_id == scope_id {
            proof {
                assert(bindings@[i as int].place() == place);
                lemma_index_at(bindings@, place);
            }
            return i;
        }
        i += 1;
    }
    proof {
        lemma_index_at(bindings@, place);
    }
    i
}

/// The bindings with one more: it takes the place of the one that stood there, or comes last.
pub open spec fn with_binding(bindings: Seq<FrontendBinding>, binding: FrontendBinding) -> Seq<
    FrontendBinding,
> {
    let at = index_at(bindings, binding.place());
    if at < bindings.len() {
        bindings.update(at, binding)
    } else {
        bindings.push(binding)
    }
}

/// Puts a binding into a draft.
pub fn upsert_binding(bindings: Vec<FrontendBinding>, binding: FrontendBinding) -> (r: Vec<
    FrontendBinding,
>)
    ensures
        r@ == with_binding(bindings@, binding),
{
    let at = find_binding(
        &bindings,
        binding.surface.as_str(),
        binding.scope_kind.as_str(),
        binding.scope_id,
    );
    let mut changed = bindings;
    if at < changed.len() {
        changed.set(at, binding);
    } else {
        changed.push(binding);
    }
    changed
}

/// The bindings without the one at a place.
pub open spec fn without_binding(bindings: Seq<FrontendBinding>, place: Place) -> Seq<
    FrontendBinding,
> {
    let at = index_at(bindings, place);
    if at < bindings.len() {
        bindings.remove(at)
    } else {
        bindings
    }
}

/// Takes a binding out of a draft, and says whether there was one.
pub fn delete_binding(
    bindings: Vec<FrontendBinding>,
    surface: &str,
    scope_kind: &str,
    scope_id: i32,
) -> (r: (Vec<FrontendBinding>, bool))
    ensures
        ({
            let place = Place { surface: surface@, scope_kind: scope_kind@, scope_id };
            &&& r.0@ == without_binding(bindings@, place)
            &&& r.1 == (index_at(bindings@, place) < bindings@.len())
        }),
{
    let at = find_binding(&bindings, surface, scope_kind, scope_id);
    let mut changed = bindings;
    if at < changed.len() {
        changed.remove(at);
        (changed, true)
    } else {
        (changed, false)
    }
}

/// No two bindings of a draft stand at one place, whatever is put in or taken out.
pub proof fn places_stay_distinct(
    bindings: Seq<FrontendBinding>,
    binding: FrontendBinding,
    place: Place,
)
    requires
        distinct_places(bindings),
    ensures
        distinct_places(with_binding(bindings, binding)),
        distinct_places(without_binding(bindings, place)),
{
    lemma_index_at(bindings, binding.place());
    lemma_index_at(bindings, place);
    let put = with_binding(bindings, binding);
    let at = index_at(bindings, binding.place());
    assert forall|i: int, j: int| 0 <= i < j < put.len() implies (#[trigger] put[i]).place() != (
    #[trigger] put[j]).place() by {
        if i < bindings.len() && i != at {
            assert(put[i] == bindings[i]);
        }
        if j < bindings.len() && j != at {
            assert(put[j] == bindings[j]);
        }
    }
    let left = without_binding(bindings, place);
    let gone = index_at(bindings, place);
    assert forall|i: int, j: int| 0 <= i < j < left.len() implies (#[trigger] left[i]).place() != (
    #[trigger] left[j]).place() by {
        if gone < bindings.len() {
            let a = if i < gone {
                i
            } else {
                i + 1
            };
            let b = if j < gone {
                j
            } else {
                j + 1
            };
            assert(left[i] == bindings[a] && left[j] == bindings[b]);
        }
    }
}

/// A binding that was put into a draft stands there, and taking out what was put in anew leaves what
/// was there before.
pub proof fn taking_out_undoes_putting_in(
    bindings: Seq<FrontendBinding>,
    binding: FrontendBinding,
)
    ensures
        with_binding(bindings, binding)[index_at(
            with_binding(bindings, binding),
            binding.place(),
        )] == binding,
        index_at(bindings, binding.place()) == bindings.len() ==> without_binding(
            with_binding(bindings, binding),
            binding.place(),
        ) == bindings,
{
    let put = with_binding(bindings, binding);
    let at = index_at(bindings, binding.place());
    lemma_index_at(bindings, binding.place());
    lemma_index_at(put, binding.place());
    let found = index_at(put, binding.place());
    assert(put[at] == binding);
    if found < at {
        assert(put[found] == bindings[found]);
    }
    assert(found == at);
    if at == bindings.len() {
        assert(put.remove(at) =~= bindings);
    }
}

/// Whether a feature of a package is on in a draft.
pub open spec fn is_on(
    activations: Seq<FrontendFeatureActivation>,
    package_id: i32,
    feature: FrontendFeature,
) -> bool {
    exists|i: int|
        0 <= i < activations.len() && (#[trigger] activations[i]).package_id == package_id
            && activations[i].feature == feature
}

/// The activations without those of a feature of a package.
pub open spec fn switched_off(
    activations: Seq<FrontendFeatureActivation>,
    package_id: i32,
    feature: FrontendFeature,
) -> Seq<FrontendFeatureActivation>
    decreases activations.len(),
{
    if activations.len() == 0 {
        Seq::empty()
    } else {
        let rest = switched_off(activations.drop_last(), package_id, feature);
        if activations.last().package_id == package_id && activations.last().feature == feature {
            rest
        } else {
            rest.push(activations.last())
        }
    }
}

/// Switches a feature of a package on or off in a draft.
pub fn set_feature_activation(
    activations: Vec<FrontendFeatureActivation>,
    revision_id: i64,
    package_id: i32,
    feature: FrontendFeature,
    enabled: bool,
) -> (r: Vec<FrontendFeatureActivation>)
    ensures
        r@ == (if !enabled {
            switched_off(activations@, package_id, feature)
        } else if is_on(activations@, package_id, feature) {
            activations@
        } else {
            activations@.push(FrontendFeatureActivation { revision_id, package_id, feature })
        }),
{
    let mut on = false;
    let mut left: Vec<FrontendFeatureActivation> = Vec::new();
    let mut i: usize = 0;
    while i < activations.len()
        invariant
            i <= activations@.len(),
            on <==> exists|k: int|
                0 <= k < i && (#[trigger] activations@[k]).package_id == package_id
                    && activations@[k].feature == feature,
            left@ == switched_off(activations@.take(i as int), package_id, feature),
        decreases activations@.len() - i,
    {
        let activation = activations[i];
        assert(activations@.take(i + 1).drop_last() =~= activations@.take(i as int));
        assert(activations@.take(i + 1).last() == activation);
        if activation.package_id == package_id && activation.feature == feature {
            on = true;
        } else {
            left.push(activation);
        }
        i += 1;
    }
    assert(activations@.take(i as int) =~= activations@);
    if !enabled {
        return left;
    }
    let mut changed = activations;
    if !on {
        changed.push(FrontendFeatureActivation { revision_id, package_id, feature });
    }
    changed
}

/// A feature that was switched off is off, one that was switched on is on, and no other feature is
/// touched.
pub proof fn switches_touch_one_feature(
    activations: Seq<FrontendFeatureActivation>,
    package_id: i32,
    feature: FrontendFeature,
    other_package: i32,
    other_feature: FrontendFeature,
    revision_id: i64,
)
    ensures
        !is_on(switched_off(activations, package_id, feature), package_id, feature),
        is_on(
            activations.push(FrontendFeatureActivation { revision_id, package_id, feature }),
            package_id,
            feature,
        ),
        (other_package != package_id || other_feature != feature) ==> (is_on(
            switched_off(activations, package_id, feature),
            other_package,
            other_feature,
        ) <==> is_on(activations, other_package, other_feature)),
    decreases activations.len(),
{
    let more = activations.push(FrontendFeatureActivation { revision_id, package_id, feature });
    assert(more[activations.len() as int].package_id == package_id);
    if activations.len() > 0 {
        let rest = activations.drop_last();
        let last = activations.last();
        switches_touch_one_feature(
            rest,
            package_id,
            feature,
            other_package,
            other_feature,
            revision_id,
        );
        let off = switched_off(activations, package_id, feature);
        let before = switched_off(rest, package_id, feature);
        assert(activations[activations.len() - 1] == last);
        if is_on(off, package_id, feature) {
            let k = choose|k: int|
                0 <= k < off.len() && (#[trigger] off[k]).package_id == package_id && off[k].feature
                    == feature;
            if k < before.len() {
                assert(before[k] == off[k]);
            }
        }
        if other_package != package_id || other_feature != feature {
            if is_on(off, other_package, other_feature) {
                let k = choose|k: int|
                    0 <= k < off.len() && (#[trigger] off[k]).package_id == other_package
                        && off[k].feature == other_feature;
                if k < before.len() {
                    assert(before[k] == off[k]);
                    assert(is_on(before, other_package, other_feature));
                    let i = choose|i: int|
                        0 <= i < rest.len() && (#[trigger] rest[i]).package_id == other_package
                            && rest[i].feature == other_feature;
                    assert(activations[i] == rest[i]);
                }
            }
            if is_on(activations, other_package, other_feature) {
                let i = choose|i: int|
                    0 <= i < activations.len() && (#[trigger] activations[i]).package_id
                        == other_package && activations[i].feature == other_feature;
                if i < rest.len() {
                    assert(rest[i] == activations[i]);
                    assert(is_on(rest, other_package, other_feature));
                    let k = choose|k: int|
                        0 <= k < before.len() && (#[trigger] before[k]).package_id == other_package
                            && before[k].feature == other_feature;
                    assert(off[k] == before[k]);
                } else {
                    assert(off[before.len() as int] == last);
                }
            }
        }
    }
}

/// Whether contents are those of another revision, under a revision's own number.
pub open spec fn copied_to(
    contents: RevisionContents,
    from: RevisionContents,
    revision_id: i64,
) -> bool {
    &&& contents.bindings@.len() == from.bindings@.len()
    &&& forall|i: int|
        0 <= i < from.bindings@.len() ==> {
            let copy = #[trigger] contents.bindings@[i];
            let own = from.bindings@[i];
            &&& copy.revision_id == revision_id
            &&& copy.place() == own.place()
            &&& copy.package_id == own.package_id
            &&& copy.renderer_id == own.renderer_id
        }
    &&& contents.activations@.len() == from.activations@.len()
    &&& forall|i: int|
        0 <= i < from.activations@.len() ==> #[trigger] contents.activations@[i] == (
        FrontendFeatureActivation { revision_id, ..from.activations@[i] })
}

/// What a new draft holds: what is published.
pub fn copy_contents(from: RevisionContents, revision_id: i64) -> (r: RevisionContents)
    ensures
        copied_to(r, from, revision_id),
{
    let ghost bound = from.bindings@;
    let ghost active = from.activations@;
    let mut bindings: Vec<FrontendBinding> = Vec::new();
    for binding in it: from.bindings
        invariant
            it.seq() == bound,
            bindings@.len() == it.index(),
            forall|i: int|
                0 <= i < bindings@.len() ==> {
                    let copy = #[trigger] bindings@[i];
                    let own = bound[i];
                    &&& copy.revision_id == revision_id
                    &&& copy.place() == own.place()
                    &&& copy.package_id == own.package_id
                    &&& copy.renderer_id == own.renderer_id
                },
    {
        bindings.push(
            FrontendBinding {
                revision_id,
                surface: binding.surface,
                scope_kind: binding.scope_kind,
                scope_id: binding.scope_id,
                package_id: binding.package_id,
                renderer_id: binding.renderer_id,
            },
        );
    }
    let mut activations: Vec<FrontendFeatureActivation> = Vec::new();
    for activation in it: from.activations
        invariant
            it.seq() == active,
            activations@.len() == it.index(),
            forall|i: int|
                0 <= i < activations@.len() ==> #[trigger] activations@[i] == (
                FrontendFeatureActivation { revision_id, ..active[i] }),
    {
        activations.push(
            FrontendFeatureActivation {
                revision_id,
                package_id: activation.package_id,
                feature: activation.feature,
            },
        );
    }
    RevisionContents { bindings, activations }
}

/// Which revision is worked on: the draft that is there, or else a new one with the next number.
#[derive(Debug, Clone, Copy, PartialEq, Eq, Structural)]
pub enum DraftChoice {
    Existing(i64),
    /// A new draft under this number.
    New(i64),
}

/// Which revision of a game is worked on, given its draft and its highest number so far.
pub fn ensure_draft(draft: Option<i64>, highest: Option<i64>) -> (r: Result<
    DraftChoice,
    RbInternalError,
>)
    ensures
        match (draft, r) {
            (Some(id), Ok(choice)) => choice == DraftChoice::Existing(id),
            (None, Ok(choice)) => choice matches DraftChoice::New(number) && number == (
            match highest {
                Some(h) => h + 1,
                None => 1,
            }),
            (None, Err(e)) => highest == Some(i64::MAX) && e.text() == "bigint out of range"@,
            (Some(_), Err(_)) => false,
        },
{
    match draft {
        Some(id) => Ok(DraftChoice::Existing(id)),
        None => match next_revision(highest) {
            Ok(number) => Ok(DraftChoice::New(number)),
            Err(e) => Err(e),
        },
    }
}

/// A binding is put in the place of the one that stood where it is to stand, or behind all where none
/// did, and taken out from where it stands; the others stay.
pub proof fn bindings_stand_in_their_place(
    bindings: Seq<FrontendBinding>,
    binding: FrontendBinding,
    at: int,
)
    requires
        distinct_places(bindings),
        0 <= at < bindings.len(),
    ensures
        bindings[at].surface@ == binding.surface@ && bindings[at].scope_kind@ == binding.scope_kind@
            && bindings[at].scope_id == binding.scope_id ==> with_binding(bindings, binding)
            == bindings.update(at, binding) && without_binding(bindings, binding.place())
            == bindings.remove(at),
        (forall|k: int|
            0 <= k < bindings.len() ==> (#[trigger] bindings[k]).surface@ != binding.surface@
                || bindings[k].scope_kind@ != binding.scope_kind@ || bindings[k].scope_id
                != binding.scope_id) ==> with_binding(bindings, binding) == bindings.push(binding)
            && without_binding(bindings, binding.place()) == bindings,
{
    let place = binding.place();
    lemma_index_at(bindings, place);
    let found = index_at(bindings, place);
    if found < bindings.len() {
        assert(bindings[found].place() == place);
        assert(bindings[found].surface@ == binding.surface@);
        if bindings[at].place() == place && found != at {
            assert(if found < at {
                bindings[found].place() != bindings[at].place()
            } else {
                bindings[at].place() != bindings[found].place()
            });
        }
    } else {
        assert(bindings[at].place() != place);
    }
}

/// Two bindings stand in one place exactly where they agree in surface, scope and number.
pub proof fn places_are_named_in_three_parts(a: FrontendBinding, b: FrontendBinding)
    ensures
        a.place() == b.place() <==> a.surface@ == b.surface@ && a.scope_kind@ == b.scope_kind@
            && a.scope_id == b.scope_id,
{
}

/// Switching a feature off takes out each of its activations and no others, in their order.
pub proof fn features_are_switched_off(
    activations: Seq<FrontendFeatureActivation>,
    one: FrontendFeatureActivation,
    package_id: i32,
    feature: FrontendFeature,
)
    ensures
        switched_off(Seq::empty(), package_id, feature).len() == 0,
        one.package_id == package_id && one.feature == feature ==> switched_off(
            activations.push(one),
            package_id,
            feature,
        ) == switched_off(activations, package_id, feature),
        one.package_id != package_id || one.feature != feature ==> switched_off(
            activations.push(one),
            package_id,
            feature,
        ) == switched_off(activations, package_id, feature).push(one),
{
    assert(activations.push(one).drop_last() =~= activations);
}

/// A copy of a revision holds what the revision holds, one for one, under a number of its own.
pub proof fn copies_hold_what_was_copied(
    contents: RevisionContents,
    from: RevisionContents,
    revision_id: i64,
    i: int,
)
    requires
        copied_to(contents, from, revision_id),
    ensures
        contents.bindings@.len() == from.bindings@.len(),
        contents.activations@.len() == from.activations@.len(),
        0 <= i < from.bindings@.len() ==> {
            let (copy, own) = (contents.bindings@[i], from.bindings@[i]);
            &&& copy.revision_id == revision_id
            &&& copy.surface@ == own.surface@
            &&& copy.scope_kind@ == own.scope_kind@
            &&& copy.scope_id == own.scope_id
            &&& copy.package_id == own.package_id
            &&& copy.renderer_id == own.renderer_id
        },
        0 <= i < from.activations@.len() ==> {
            let (copy, own) = (contents.activations@[i], from.activations@[i]);
            &&& copy.revision_id == revision_id
            &&& copy.package_id == own.package_id
            &&& copy.feature == own.feature
        },
{
    if 0 <= i < from.bindings@.len() {
        let copy = contents.bindings@[i];
        assert(copy.place() == from.bindings@[i].place());
    }
    if 0 <= i < from.activations@.len() {
        let copy = contents.activations@[i];
    }
}

} // verus!
