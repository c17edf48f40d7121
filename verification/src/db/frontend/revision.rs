//! Revisions of a game's themes: what is published, and which package draws a page.
use vstd::prelude::*;

use crate::clock::Timestamp;
use crate::db::frontend::FrontendFeature;
use crate::error::{fault, RbInternalError};
use crate::json::Json;
use crate::text::same;

verus! {

/// A draft, or what is published.
#[derive(Debug)]
pub struct FrontendRevision {
    pub id: i64,
    pub game_id: i32,
    pub revision: i64,
    pub status: String,
    pub created_by: Option<i32>,
    pub ctime_at: Timestamp,
    pub published_at: Option<Timestamp>,
}

/// The package that draws a surface in a scope: of a game (with the id 0), of a round or of a puzzle.
/// No package stands for the pages that come with the server.
#[derive(Debug)]
pub struct FrontendBinding {
    pub revision_id: i64,
    pub surface: String,
    pub scope_kind: String,
    pub scope_id: i32,
    pub package_id: Option<i32>,
    pub renderer_id: Option<String>,
}

/// A feature of a package that is switched on.
#[derive(Debug, Clone, Copy, PartialEq, Eq, Structural)]
pub struct FrontendFeatureActivation {
    pub revision_id: i64,
    pub package_id: i32,
    pub feature: FrontendFeature,
}

/// What draws a page.
#[derive(Debug)]
pub struct ResolvedBindingRow {
    pub revision: i64,
    pub package_id: Option<i32>,
    pub renderer_id: Option<String>,
    pub asset_group_id: Option<i32>,
    pub manifest_path: Option<String>,
    pub manifest: Option<Json>,
    pub object_key: Option<String>,
    pub backend: Option<String>,
}

/// A feature that is on, and where its package is stored.
#[derive(Debug)]
pub struct ResolvedFeatureRow {
    pub revision: i64,
    pub package_id: i32,
    pub feature: FrontendFeature,
    pub manifest_path: String,
    pub object_key: String,
    pub backend: String,
}

/// What bindings and activations depend on of a package.
#[derive(Debug)]
pub struct PackageRef {
    pub id: i32,
    pub game_id: i32,
    pub name: String,
    /// Whether a newer package has taken its place.
    pub delete_pending: bool,
}

/// The number of the next revision of a game, given the highest one so far. Numbers can run out.
pub fn next_revision(highest: Option<i64>) -> (r: Result<i64, RbInternalError>)
    ensures
        match r {
            Ok(n) => n == (match highest {
                Some(h) => h + 1,
                None => 1,
            }),
            Err(e) => highest == Some(i64::MAX) && e.text() == "bigint out of range"@,
        },
{
    match highest {
        None => Ok(1),
        Some(h) => if h == i64::MAX {
            Err(fault("bigint out of range"))
        } else {
            Ok(h + 1)
        },
    }
}

pub open spec fn distinct_packages(packages: Seq<PackageRef>) -> bool {
    forall|i: int, j: int|
        0 <= i < j < packages.len() ==> (#[trigger] packages[i]).id != (#[trigger] packages[j]).id
}

/// The package with an id.
pub open spec fn package_at(packages: Seq<PackageRef>, id: i32) -> Option<PackageRef>
    decreases packages.len(),
{
    if packages.len() == 0 {
        None
    } else if packages[0].id == id {
        Some(packages[0])
    } else {
        package_at(packages.skip(1), id)
    }
}

/// Whether a package takes the place of another: one of the same name in the same game that is not
/// itself to be deleted.
pub open spec fn takes_the_place_of(new: PackageRef, old: PackageRef) -> bool {
    new.game_id == old.game_id && new.name@ == old.name@ && !new.delete_pending
}

/// The package that takes the place of another.
pub open spec fn successor(packages: Seq<PackageRef>, old: PackageRef) -> Option<i32>
    decreases packages.len(),
{
    if packages.len() == 0 {
        None
    } else if takes_the_place_of(packages[0], old) {
        Some(packages[0].id)
    } else {
        successor(packages.skip(1), old)
    }
}

/// The package that is used where a package is named: itself, or where it is to be deleted, the one
/// that takes its place, if there is one.
pub open spec fn standing_in(packages: Seq<PackageRef>, named: PackageRef) -> Option<i32> {
    if named.delete_pending {
        successor(packages, named)
    } else {
        Some(named.id)
    }
}

fn find_package<'a>(packages: &'a Vec<PackageRef>, id: i32) -> (r: Option<&'a PackageRef>)
    ensures
        match r {
            Some(p) => package_at(packages@, id) == Some(*p) && p.id == id,
            None => package_at(packages@, id) is None,
        },
{
    let mut i: usize = 0;
    assert(packages@.skip(0) =~= packages@);
    while i < packages.len()
        invariant
            i <= packages@.len(),
            package_at(packages@, id) == package_at(packages@.skip(i as int), id),
        decreases packages@.len() - i,
    {
        assert(packages@.skip(i as int)[0] == packages@[i as int]);
        if packages[i].id == id {
            return Some(&packages[i]);
        }
        assert(packages@.skip(i as int).skip(1) =~= packages@.skip(i + 1));
        i += 1;
    }
    None
}

fn find_successor(packages: &Vec<PackageRef>, old: &PackageRef) -> (r: Option<i32>)
    ensures
        r == successor(packages@, *old),
{
    let mut i: usize = 0;
    assert(packages@.skip(0) =~= packages@);
    while i < packages.len()
        invariant
            i <= packages@.len(),
            successor(packages@, *old) == successor(packages@.skip(i as int), *old),
        decreases packages@.len() - i,
    {
        assert(packages@.skip(i as int)[0] == packages@[i as int]);
        let p = &packages[i];
        if p.game_id == old.game_id && same(&p.name, &old.name) && !p.delete_pending {
            return Some(p.id);
        }
        assert(packages@.skip(i as int).skip(1) =~= packages@.skip(i + 1));
        i += 1;
    }
    None
}

fn stand_in(packages: &Vec<PackageRef>, named: &PackageRef) -> (r: Option<i32>)
    ensures
        r == standing_in(packages@, *named),
{
    if named.delete_pending {
        find_successor(packages, named)
    } else {
        Some(named.id)
    }
}

/// What becomes of a binding when its revision is published: where its package is to be deleted, the
/// package that takes its place draws the page, and where none does, the binding goes.
pub open spec fn binding_after(packages: Seq<PackageRef>, b: FrontendBinding) -> Option<
    FrontendBinding,
> {
    match b.package_id {
        None => Some(b),
        Some(id) => match package_at(packages, id) {
            None => Some(b),
            Some(p) => match standing_in(packages, p) {
                Some(n) => Some(FrontendBinding { package_id: Some(n), ..b }),
                None => None,
            },
        },
    }
}

/// The bindings of a revision once it is published.
pub open spec fn published_bindings(
    packages: Seq<PackageRef>,
    bindings: Seq<FrontendBinding>,
) -> Seq<FrontendBinding>
    decreases bindings.len(),
{
    if bindings.len() == 0 {
        Seq::empty()
    } else {
        let before = published_bindings(packages, bindings.drop_last());
        match binding_after(packages, bindings.last()) {
            Some(b) => before.push(b),
            None => before,
        }
    }
}

/// Whether a feature of a package is on.
pub open spec fn activated(
    all: Seq<FrontendFeatureActivation>,
    package_id: i32,
    feature: FrontendFeature,
) -> bool {
    exists|i: int|
        0 <= i < all.len() && (#[trigger] all[i]).package_id == package_id && all[i].feature == feature
}

/// What becomes of a feature that is on when its revision is published: where its package is to be
/// deleted, the feature of the package that takes its place is on instead; where none does, or that
/// feature is on anyway, nothing is.
pub open spec fn activation_after(
    packages: Seq<PackageRef>,
    all: Seq<FrontendFeatureActivation>,
    a: FrontendFeatureActivation,
) -> Option<FrontendFeatureActivation> {
    match package_at(packages, a.package_id) {
        None => Some(a),
        Some(p) => if !p.delete_pending {
            Some(a)
        } else {
            match successor(packages, p) {
                None => None,
                Some(n) => if activated(all, n, a.feature) {
                    None
                } else {
                    Some(FrontendFeatureActivation { package_id: n, ..a })
                },
            }
        },
    }
}

/// The features that are on once a revision is published, of some that were on in it.
pub open spec fn published_activations(
    packages: Seq<PackageRef>,
    all: Seq<FrontendFeatureActivation>,
    some: Seq<FrontendFeatureActivation>,
) -> Seq<FrontendFeatureActivation>
    decreases some.len(),
{
    if some.len() == 0 {
        Seq::empty()
    } else {
        let before = published_activations(packages, all, some.drop_last());
        match activation_after(packages, all, some.last()) {
            Some(a) => before.push(a),
            None => before,
        }
    }
}

/// The contents of a revision.
#[derive(Debug)]
pub struct RevisionContents {
    pub bindings: Vec<FrontendBinding>,
    pub activations: Vec<FrontendFeatureActivation>,
}

fn is_activated(
    all: &Vec<FrontendFeatureActivation>,
    package_id: i32,
    feature: FrontendFeature,
) -> (r: bool)
    ensures
        r == activated(all@, package_id, feature),
{
    let mut i: usize = 0;
    while i < all.len()
        invariant
            i <= all@.len(),
            forall|k: int|
                0 <= k < i ==> !((#[trigger] all@[k]).package_id == package_id && all@[k].feature
                    == feature),
        decreases all@.len() - i,
    {
        if all[i].package_id == package_id && all[i].feature == feature {
            return true;
        }
        i += 1;
    }
    false
}

fn publish_binding(packages: &Vec<PackageRef>, b: FrontendBinding) -> (r: Option<FrontendBinding>)
    ensures
        r == binding_after(packages@, b),
{
    let id: i32 = match b.package_id {
        Some(id) => id,
        None => {
            return Some(b);
        },
    };
    match find_package(packages, id) {
        None => Some(b),
        Some(p) => match stand_in(packages, p) {
            Some(n) => Some(
                FrontendBinding {
                    revision_id: b.revision_id,
                    surface: b.surface,
                    scope_kind: b.scope_kind,
                    scope_id: b.scope_id,
                    package_id: Some(n),
                    renderer_id: b.renderer_id,
                },
            ),
            None => None,
        },
    }
}

fn publish_activation(
    packages: &Vec<PackageRef>,
    all: &Vec<FrontendFeatureActivation>,
    a: FrontendFeatureActivation,
) -> (r: Option<FrontendFeatureActivation>)
    ensures
        r == activation_after(packages@, all@, a),
{
    match find_package(packages, a.package_id) {
        None => Some(a),
        Some(p) => {
            if !p.delete_pending {
                return Some(a);
            }
            match find_successor(packages, p) {
                None => None,
                Some(n) => if is_activated(all, n, a.feature) {
                    None
                } else {
                    Some(
                        FrontendFeatureActivation {
                            revision_id: a.revision_id,
                            package_id: n,
                            feature: a.feature,
                        },
                    )
                },
            }
        },
    }
}

/// The contents of a draft once it is published; the next draft starts with the same.
pub fn publish(
    packages: &Vec<PackageRef>,
    bindings: Vec<FrontendBinding>,
    activations: &Vec<FrontendFeatureActivation>,
) -> (r: RevisionContents)
    ensures
        r.bindings@ == published_bindings(packages@, bindings@),
        r.activations@ == published_activations(packages@, activations@, activations@),
{
    let mut kept: Vec<FrontendBinding> = Vec::new();
    assert(bindings@.take(0) =~= Seq::<FrontendBinding>::empty());
    for b in it: bindings
        invariant
            it.seq() == bindings@,
            kept@ == published_bindings(packages@, bindings@.take(it.index() as int)),
    {
        proof {
            let i = it.index() as int;
            assert(bindings@.take(i + 1).drop_last() =~= bindings@.take(i));
            assert(bindings@.take(i + 1).last() == bindings@[i]);
        }
        if let Some(b) = publish_binding(packages, b) {
            kept.push(b);
        }
    }
    assert(bindings@.take(bindings@.len() as int) =~= bindings@);
    let mut on: Vec<FrontendFeatureActivation> = Vec::new();
    let mut i: usize = 0;
    while i < activations.len()
        invariant
            i <= activations@.len(),
            on@ == published_activations(packages@, activations@, activations@.take(i as int)),
        decreases activations@.len() - i,
    {
        proof {
            assert(activations@.take(i + 1).drop_last() =~= activations@.take(i as int));
            assert(activations@.take(i + 1).last() == activations@[i as int]);
        }
        if let Some(a) = publish_activation(packages, activations, activations[i]) {
            on.push(a);
        }
        i += 1;
    }
    assert(activations@.take(i as int) =~= activations@);
    RevisionContents { bindings: kept, activations: on }
}

proof fn lemma_package_at(packages: Seq<PackageRef>, k: int)
    requires
        distinct_packages(packages),
        0 <= k < packages.len(),
    ensures
        package_at(packages, packages[k].id) == Some(packages[k]),
    decreases packages.len(),
{
    if k > 0 {
        assert(packages[0].id != packages[k].id);
        assert(packages.skip(1)[k - 1] == packages[k]);
        assert forall|i: int, j: int| 0 <= i < j < packages.skip(1).len() implies (
        #[trigger] packages.skip(1)[i]).id != (#[trigger] packages.skip(1)[j]).id by {
            assert(packages.skip(1)[i] == packages[i + 1]);
            assert(packages.skip(1)[j] == packages[j + 1]);
        }
        lemma_package_at(packages.skip(1), k - 1);
    }
}

proof fn lemma_successor(packages: Seq<PackageRef>, old: PackageRef) -> (k: int)
    requires
        successor(packages, old) is Some,
    ensures
        0 <= k < packages.len(),
        takes_the_place_of(packages[k], old),
        successor(packages, old) == Some(packages[k].id),
    decreases packages.len(),
{
    if takes_the_place_of(packages[0], old) {
        0
    } else {
        let k = lemma_successor(packages.skip(1), old);
        assert(packages.skip(1)[k] == packages[k + 1]);
        k + 1
    }
}

/// Whether an id is that of a package that is to be deleted.
pub open spec fn is_pending(packages: Seq<PackageRef>, id: i32) -> bool {
    package_at(packages, id) matches Some(p) && p.delete_pending
}

proof fn lemma_stand_in_stays(packages: Seq<PackageRef>, p: PackageRef, id: i32)
    requires
        distinct_packages(packages),
        package_at(packages, id) == Some(p),
        standing_in(packages, p) is Some,
    ensures
        !is_pending(packages, standing_in(packages, p)->0),
        p.id == id,
{
    lemma_found(packages, id);
    if p.delete_pending {
        let k = lemma_successor(packages, p);
        lemma_package_at(packages, k);
    }
}

proof fn lemma_found(packages: Seq<PackageRef>, id: i32)
    requires
        package_at(packages, id) is Some,
    ensures
        (package_at(packages, id)->0).id == id,
    decreases packages.len(),
{
    if packages[0].id != id {
        lemma_found(packages.skip(1), id);
    }
}

/// No binding that is published is to a package that is to be deleted.
pub proof fn no_published_binding_is_pending(
    packages: Seq<PackageRef>,
    bindings: Seq<FrontendBinding>,
    i: int,
)
    requires
        distinct_packages(packages),
        0 <= i < published_bindings(packages, bindings).len(),
    ensures
        published_bindings(packages, bindings)[i].package_id matches Some(id) ==> !is_pending(
            packages,
            id,
        ),
    decreases bindings.len(),
{
    let before = published_bindings(packages, bindings.drop_last());
    let last = bindings.last();
    if i < before.len() {
        no_published_binding_is_pending(packages, bindings.drop_last(), i);
        assert(published_bindings(packages, bindings)[i] == before[i]);
    } else if last.package_id is Some {
        let id = last.package_id->0;
        if package_at(packages, id) is Some {
            lemma_stand_in_stays(packages, package_at(packages, id)->0, id);
        }
    }
}

/// No feature that is published is one of a package that is to be deleted.
pub proof fn no_published_feature_is_pending(
    packages: Seq<PackageRef>,
    all: Seq<FrontendFeatureActivation>,
    some: Seq<FrontendFeatureActivation>,
    i: int,
)
    requires
        distinct_packages(packages),
        0 <= i < published_activations(packages, all, some).len(),
    ensures
        !is_pending(packages, published_activations(packages, all, some)[i].package_id),
    decreases some.len(),
{
    let before = published_activations(packages, all, some.drop_last());
    if i < before.len() {
        no_published_feature_is_pending(packages, all, some.drop_last(), i);
        assert(published_activations(packages, all, some)[i] == before[i]);
    } else {
        let a = some.last();
        if is_pending(packages, a.package_id) {
            lemma_stand_in_stays(packages, package_at(packages, a.package_id)->0, a.package_id);
        }
    }
}

proof fn lemma_settled(packages: Seq<PackageRef>, bindings: Seq<FrontendBinding>)
    requires
        forall|i: int|
            0 <= i < bindings.len() ==> ((#[trigger] bindings[i]).package_id matches Some(id)
                ==> !is_pending(packages, id)),
    ensures
        published_bindings(packages, bindings) == bindings,
    decreases bindings.len(),
{
    if bindings.len() > 0 {
        let b = bindings.last();
        assert(b == bindings[bindings.len() - 1]);
        assert forall|i: int| 0 <= i < bindings.drop_last().len() implies ((
        #[trigger] bindings.drop_last()[i]).package_id matches Some(id) ==> !is_pending(
            packages,
            id,
        )) by {
            assert(bindings.drop_last()[i] == bindings[i]);
        }
        lemma_settled(packages, bindings.drop_last());
        if b.package_id is Some && package_at(packages, b.package_id->0) is Some {
            lemma_found(packages, b.package_id->0);
        }
        assert(binding_after(packages, b) == Some(b));
        assert(bindings.drop_last().push(b) =~= bindings);
    } else {
        assert(published_bindings(packages, bindings) =~= bindings);
    }
}

/// Publishing what was published, which the next draft starts with, changes no binding.
pub proof fn publishing_again_changes_no_binding(
    packages: Seq<PackageRef>,
    bindings: Seq<FrontendBinding>,
)
    requires
        distinct_packages(packages),
    ensures
        published_bindings(packages, published_bindings(packages, bindings)) == published_bindings(
            packages,
            bindings,
        ),
{
    let once = published_bindings(packages, bindings);
    assert forall|i: int| 0 <= i < once.len() implies ((#[trigger] once[i]).package_id matches Some(
        id,
    ) ==> !is_pending(packages, id)) by {
        no_published_binding_is_pending(packages, bindings, i);
    }
    lemma_settled(packages, once);
}

/// The package that a page of a revision is drawn with where a package is named; in a draft, a
/// package that is to be deleted has been replaced already.
pub open spec fn resolved_package(packages: Seq<PackageRef>, draft: bool, id: i32) -> Option<i32> {
    match package_at(packages, id) {
        None => None,
        Some(p) => if draft {
            standing_in(packages, p)
        } else {
            Some(id)
        },
    }
}

/// The page that is drawn.
#[derive(Debug, Clone, Copy)]
pub struct Page<'a> {
    pub surface: &'a str,
    pub round_id: Option<i32>,
    pub puzzle_id: Option<i32>,
}

/// How narrow the scope of a binding is, or 0 where it does not apply to a page.
pub open spec fn scope_rank(b: FrontendBinding, page: Page<'_>) -> int {
    let puzzle = match page.puzzle_id {
        Some(id) => id,
        None => 0,
    };
    let round = match page.round_id {
        Some(id) => id,
        None => 0,
    };
    if b.surface@ != page.surface@ {
        0
    } else if b.scope_kind@ == "puzzle"@ {
        if b.scope_id == puzzle {
            3
        } else {
            0
        }
    } else if b.scope_kind@ == "round"@ {
        if b.scope_id == round {
            2
        } else {
            0
        }
    } else if b.scope_kind@ == "game"@ && b.scope_id == 0 {
        1
    } else {
        0
    }
}

/// How much a binding counts for a page: not at all where its package cannot be had, else the more
/// the narrower its scope is.
pub open spec fn weight(
    packages: Seq<PackageRef>,
    draft: bool,
    b: FrontendBinding,
    page: Page<'_>,
) -> int {
    match b.package_id {
        None => scope_rank(b, page),
        Some(id) => if resolved_package(packages, draft, id) is Some {
            scope_rank(b, page)
        } else {
            0
        },
    }
}

/// A binding counts in a draft, and draws with the package, as what becomes of it does once the draft
/// is published.
pub proof fn drafts_are_drawn_as_they_will_be_published(
    packages: Seq<PackageRef>,
    b: FrontendBinding,
    page: Page<'_>,
)
    requires
        distinct_packages(packages),
        b.package_id matches Some(id) ==> package_at(packages, id) is Some,
    ensures
        match binding_after(packages, b) {
            Some(c) => {
                &&& weight(packages, true, b, page) == weight(packages, false, c, page)
                &&& b.package_id matches Some(id) ==> c.package_id == resolved_package(
                    packages,
                    true,
                    id,
                )
            },
            None => weight(packages, true, b, page) == 0,
        },
{
    if b.package_id is Some {
        let id = b.package_id->0;
        let p = package_at(packages, id)->0;
        lemma_found(packages, id);
        if p.delete_pending && successor(packages, p) is Some {
            let k = lemma_successor(packages, p);
            lemma_package_at(packages, k);
        }
    }
}

fn resolve_package(packages: &Vec<PackageRef>, draft: bool, id: i32) -> (r: Option<i32>)
    ensures
        r == resolved_package(packages@, draft, id),
{
    match find_package(packages, id) {
        None => None,
        Some(p) => if draft {
            stand_in(packages, p)
        } else {
            Some(id)
        },
    }
}

fn rank_scope(b: &FrontendBinding, page: &Page<'_>) -> (r: u8)
    ensures
        r == scope_rank(*b, *page),
{
    let puzzle: i32 = match page.puzzle_id {
        Some(id) => id,
        None => 0,
    };
    let round: i32 = match page.round_id {
        Some(id) => id,
        None => 0,
    };
    if !same(&b.surface, page.surface) {
        0
    } else if same(&b.scope_kind, "puzzle") {
        if b.scope_id == puzzle {
            3
        } else {
            0
        }
    } else if same(&b.scope_kind, "round") {
        if b.scope_id == round {
            2
        } else {
            0
        }
    } else if same(&b.scope_kind, "game") && b.scope_id == 0 {
        1
    } else {
        0
    }
}

/// The binding that draws a page, by its place in the list, and the package it is drawn with.
#[derive(Debug, Clone, Copy, PartialEq, Eq, Structural)]
pub struct ResolvedChoice {
    pub index: usize,
    pub package_id: Option<i32>,
}

/// What draws a page: the first binding of those in the narrowest scope that applies.
pub fn resolve(
    packages: &Vec<PackageRef>,
    draft: bool,
    bindings: &Vec<FrontendBinding>,
    page: &Page<'_>,
) -> (r: Option<ResolvedChoice>)
    ensures
        match r {
            None => forall|i: int|
                0 <= i < bindings@.len() ==> weight(
                    packages@,
                    draft,
                    #[trigger] bindings@[i],
                    *page,
                ) == 0,
            Some(c) => {
                let w = weight(packages@, draft, bindings@[c.index as int], *page);
                &&& c.index < bindings@.len()
                &&& w > 0
                &&& forall|i: int|
                    0 <= i < bindings@.len() ==> weight(
                        packages@,
                        draft,
                        #[trigger] bindings@[i],
                        *page,
                    ) <= w
                &&& forall|i: int|
                    0 <= i < c.index ==> weight(packages@, draft, #[trigger] bindings@[i], *page)
                        < w
                &&& c.package_id == (match bindings@[c.index as int].package_id {
                    Some(id) => resolved_package(packages@, draft, id),
                    None => None,
                })
            },
        },
{
    let mut best: Option<ResolvedChoice> = None;
    let mut top: u8 = 0;
    let mut i: usize = 0;
    while i < bindings.len()
        invariant
            i <= bindings@.len(),
            forall|k: int|
                0 <= k < i ==> weight(packages@, draft, #[trigger] bindings@[k], *page) <= top,
            match best {
                None => top == 0,
                Some(c) => {
                    &&& c.index < i
                    &&& top > 0
                    &&& top == weight(packages@, draft, bindings@[c.index as int], *page)
                    &&& forall|k: int|
                        0 <= k < c.index ==> weight(
                            packages@,
                            draft,
                            #[trigger] bindings@[k],
                            *page,
                        ) < top
                    &&& c.package_id == (match bindings@[c.index as int].package_id {
                        Some(id) => resolved_package(packages@, draft, id),
                        None => None,
                    })
                },
            },
        decreases bindings@.len() - i,
    {
        let b = &bindings[i];
        let rank = rank_scope(b, page);
        if rank > top {
            match b.package_id {
                None => {
                    best = Some(ResolvedChoice { index: i, package_id: None });
                    top = rank;
                },
                Some(id) => {
                    let package_id = resolve_package(packages, draft, id);
                    if package_id.is_some() {
                        best = Some(ResolvedChoice { index: i, package_id });
                        top = rank;
                    }
                },
            }
        }
        i += 1;
    }
    assert(forall|k: int|
        0 <= k < bindings@.len() ==> weight(packages@, draft, #[trigger] bindings@[k], *page) >= 0);
    best
}

/// The order in which features are listed: by package, then by feature.
pub open spec fn listed_before(a: (i32, FrontendFeature), b: (i32, FrontendFeature)) -> bool {
    a.0 < b.0 || (a.0 == b.0 && a.1.code_of() < b.1.code_of())
}

pub open spec fn in_order(list: Seq<(i32, FrontendFeature)>) -> bool {
    forall|i: int, j: int|
        0 <= i < j < list.len() ==> listed_before(#[trigger] list[i], #[trigger] list[j])
}

fn put_feature(list: &mut Vec<(i32, FrontendFeature)>, p: (i32, FrontendFeature))
    requires
        in_order(old(list)@),
    ensures
        in_order(final(list)@),
        forall|q: (i32, FrontendFeature)| #[trigger]
            final(list)@.contains(q) <==> old(list)@.contains(q) || q == p,
{
    let code: i16 = p.1.into();
    let mut i: usize = 0;
    while i < list.len() && (list[i].0 < p.0 || (list[i].0 == p.0 && i16::from(list[i].1) < code))
        invariant
            i <= list@.len(),
            list@ == old(list)@,
            code == p.1.code_of(),
            forall|k: int| 0 <= k < i ==> listed_before(#[trigger] list@[k], p),
        decreases list@.len() - i,
    {
        i += 1;
    }
    if i < list.len() && list[i].0 == p.0 && i16::from(list[i].1) == code {
        assert(list@[i as int] == p);
        assert(list@.contains(p));
        return;
    }
    let ghost before = list@;
    list.insert(i, p);
    proof {
        if i < before.len() {
            assert(listed_before(p, before[i as int]));
        }
        assert forall|a: int, b: int| 0 <= a < b < list@.len() implies listed_before(
            #[trigger] list@[a],
            #[trigger] list@[b],
        ) by {
            if a < i && b > i {
                assert(list@[a] == before[a] && list@[b] == before[b - 1]);
            } else if a == i {
                assert(list@[b] == before[b - 1]);
                assert(b - 1 == i || listed_before(before[i as int], before[b - 1]));
            } else if a > i {
                assert(list@[a] == before[a - 1] && list@[b] == before[b - 1]);
            } else if b < i {
                assert(list@[a] == before[a] && list@[b] == before[b]);
            } else {
                assert(list@[a] == before[a]);
            }
        }
        assert forall|x: (i32, FrontendFeature)| #[trigger]
            list@.contains(x) <==> (before.contains(x) || x == p) by {
            if before.contains(x) {
                let k = choose|k: int| 0 <= k < before.len() && before[k] == x;
                if k < i {
                    assert(list@[k] == x);
                } else {
                    assert(list@[k + 1] == x);
                }
            }
            if x == p {
                assert(list@[i as int] == p);
            }
            if list@.contains(x) {
                let k = choose|k: int| 0 <= k < list@.len() && list@[k] == x;
                if k < i {
                    assert(before[k] == x);
                } else if k > i {
                    assert(before[k - 1] == x);
                }
            }
        }
    }
}

/// Whether a feature of a package is on in a revision, once packages are resolved.
pub open spec fn feature_is_on(
    packages: Seq<PackageRef>,
    draft: bool,
    activations: Seq<FrontendFeatureActivation>,
    p: (i32, FrontendFeature),
) -> bool {
    exists|i: int|
        0 <= i < activations.len() && (#[trigger] activations[i]).feature == p.1
            && resolved_package(packages, draft, activations[i].package_id) == Some(p.0)
}

/// The features that are on in a revision, each once, by package and feature.
pub fn resolve_features(
    packages: &Vec<PackageRef>,
    draft: bool,
    activations: &Vec<FrontendFeatureActivation>,
) -> (r: Vec<(i32, FrontendFeature)>)
    ensures
        in_order(r@),
        forall|p: (i32, FrontendFeature)| #[trigger]
            r@.contains(p) <==> feature_is_on(packages@, draft, activations@, p),
{
    let mut out: Vec<(i32, FrontendFeature)> = Vec::new();
    let mut i: usize = 0;
    while i < activations.len()
        invariant
            i <= activations@.len(),
            in_order(out@),
            forall|p: (i32, FrontendFeature)| #[trigger]
                out@.contains(p) <==> feature_is_on(
                    packages@,
                    draft,
                    activations@.take(i as int),
                    p,
                ),
        decreases activations@.len() - i,
    {
        let a = activations[i];
        let ghost before = out@;
        let found = resolve_package(packages, draft, a.package_id);
        if let Some(id) = found {
            put_feature(&mut out, (id, a.feature));
        }
        proof {
            let past = activations@.take(i as int);
            let next = activations@.take(i + 1);
            assert(next[i as int] == a);
            assert forall|p: (i32, FrontendFeature)| #[trigger]
                out@.contains(p) <==> feature_is_on(packages@, draft, next, p) by {
                assert(before.contains(p) <==> feature_is_on(packages@, draft, past, p));
                if feature_is_on(packages@, draft, past, p) {
                    let k = choose|k: int|
                        0 <= k < past.len() && (#[trigger] past[k]).feature == p.1
                            && resolved_package(packages@, draft, past[k].package_id) == Some(p.0);
                    assert(next[k] == past[k]);
                }
                if feature_is_on(packages@, draft, next, p) {
                    let k = choose|k: int|
                        0 <= k < next.len() && (#[trigger] next[k]).feature == p.1
                            && resolved_package(packages@, draft, next[k].package_id) == Some(p.0);
                    if k < i {
                        assert(past[k] == next[k]);
                    }
                }
            }
        }
        i += 1;
    }
    assert(activations@.take(i as int) =~= activations@);
    out
}

/// A package is found by its number: the first that has it, and none where none has.
pub proof fn packages_are_found_by_number(first: PackageRef, packages: Seq<PackageRef>, id: i32)
    ensures
        package_at(Seq::empty(), id) is None,
        first.id == id ==> package_at(seq![first] + packages, id) == Some(first),
        first.id != id ==> package_at(seq![first] + packages, id) == package_at(packages, id),
{
    assert((seq![first] + packages).skip(1) =~= packages);
}

/// A package is followed by the first of its game and name that is not to be deleted.
pub proof fn packages_are_followed_by_their_name(
    first: PackageRef,
    packages: Seq<PackageRef>,
    old_package: PackageRef,
)
    ensures
        successor(Seq::empty(), old_package) is None,
        ({
            let follows = first.game_id == old_package.game_id && first.name@ == old_package.name@
                && !first.delete_pending;
            &&& follows ==> successor(seq![first] + packages, old_package) == Some(first.id)
            &&& !follows ==> successor(seq![first] + packages, old_package) == successor(
                packages,
                old_package,
            )
        }),
{
    assert((seq![first] + packages).skip(1) =~= packages);
}

/// A package stands for itself unless it is to be deleted; then the one that follows it does.
pub proof fn packages_stand_for_themselves(packages: Seq<PackageRef>, named: PackageRef)
    ensures
        !named.delete_pending ==> standing_in(packages, named) == Some(named.id),
        named.delete_pending ==> standing_in(packages, named) == successor(packages, named),
        is_pending(packages, named.id) <==> package_at(packages, named.id) is Some && package_at(
            packages,
            named.id,
        )->0.delete_pending,
{
}

/// What becomes of a binding when it is published: without a package, or with one that is not known or
/// not to be deleted, it stays; otherwise it names the package that follows, or falls away where none
/// does. Nothing but the package changes.
pub proof fn bindings_follow_their_packages(packages: Seq<PackageRef>, b: FrontendBinding)
    ensures
        ({
            let after = binding_after(packages, b);
            let package = package_at(packages, b.package_id->0);
            &&& b.package_id is None ==> after == Some(b)
            &&& b.package_id is Some && package is None ==> after == Some(b)
            &&& b.package_id is Some && package is Some && package->0.delete_pending && successor(
                packages,
                package->0,
            ) is None ==> after is None
            &&& after is Some ==> {
                let c = after->0;
                &&& c.revision_id == b.revision_id
                &&& c.surface == b.surface
                &&& c.scope_kind == b.scope_kind
                &&& c.scope_id == b.scope_id
                &&& c.renderer_id == b.renderer_id
                &&& b.package_id is Some && package is Some && !package->0.delete_pending
                    ==> c.package_id == Some(package->0.id)
                &&& b.package_id is Some && package is Some && package->0.delete_pending
                    ==> c.package_id == successor(packages, package->0)
            }
        }),
{
}

/// Bindings and activations are published one by one, in their order; those that fall away are left
/// out.
pub proof fn contents_are_published_one_by_one(
    packages: Seq<PackageRef>,
    bindings: Seq<FrontendBinding>,
    b: FrontendBinding,
    all: Seq<FrontendFeatureActivation>,
    some: Seq<FrontendFeatureActivation>,
    a: FrontendFeatureActivation,
)
    ensures
        published_bindings(packages, Seq::empty()).len() == 0,
        binding_after(packages, b) is None ==> published_bindings(packages, bindings.push(b))
            == published_bindings(packages, bindings),
        binding_after(packages, b) matches Some(c) ==> published_bindings(packages, bindings.push(b))
            == published_bindings(packages, bindings).push(c),
        published_activations(packages, all, Seq::empty()).len() == 0,
        activation_after(packages, all, a) is None ==> published_activations(
            packages,
            all,
            some.push(a),
        ) == published_activations(packages, all, some),
        activation_after(packages, all, a) matches Some(c) ==> published_activations(
            packages,
            all,
            some.push(a),
        ) == published_activations(packages, all, some).push(c),
{
    assert(bindings.push(b).drop_last() =~= bindings);
    assert(some.push(a).drop_last() =~= some);
}

/// What becomes of an activation when it is published: it stays unless its package is to be deleted;
/// then it names the package that follows, or falls away where none does or where that one has the
/// feature already.
pub proof fn activations_follow_their_packages(
    packages: Seq<PackageRef>,
    all: Seq<FrontendFeatureActivation>,
    a: FrontendFeatureActivation,
)
    ensures
        ({
            let after = activation_after(packages, all, a);
            let package = package_at(packages, a.package_id);
            let next = successor(packages, package->0);
            let taken = exists|i: int|
                0 <= i < all.len() && (#[trigger] all[i]).package_id == next->0 && all[i].feature
                    == a.feature;
            &&& package is None || !package->0.delete_pending ==> after == Some(a)
            &&& package is Some && package->0.delete_pending && (next is None || taken) ==> after
                is None
            &&& package is Some && package->0.delete_pending && next is Some && !taken ==> after
                is Some && after->0.package_id == next->0 && after->0.feature == a.feature
                && after->0.revision_id == a.revision_id
        }),
{
    let package = package_at(packages, a.package_id);
    let next = successor(packages, package->0);
    if activated(all, next->0, a.feature) {
        let i = choose|i: int|
            0 <= i < all.len() && (#[trigger] all[i]).package_id == next->0 && all[i].feature
                == a.feature;
        assert(all[i].package_id == next->0);
    }
}

/// A binding counts for a page where it is of the page's surface and names its puzzle, its round or the
/// game; the closer one counts more.
pub proof fn closer_bindings_count_more(b: FrontendBinding, page: Page<'_>)
    ensures
        b.surface@ != page.surface@ ==> scope_rank(b, page) == 0,
        b.surface@ == page.surface@ && b.scope_kind@ == "puzzle"@ ==> (scope_rank(b, page) == 3 <==> (
        page.puzzle_id is Some && b.scope_id == page.puzzle_id->0) || (page.puzzle_id is None
            && b.scope_id == 0)) && (scope_rank(b, page) == 3 || scope_rank(b, page) == 0),
        b.surface@ == page.surface@ && b.scope_kind@ == "round"@ ==> (scope_rank(b, page) == 2 <==> (
        page.round_id is Some && b.scope_id == page.round_id->0) || (page.round_id is None
            && b.scope_id == 0)) && (scope_rank(b, page) == 2 || scope_rank(b, page) == 0),
        b.surface@ == page.surface@ && b.scope_kind@ == "game"@ ==> (scope_rank(b, page) == 1
            <==> b.scope_id == 0) && (scope_rank(b, page) == 1 || scope_rank(b, page) == 0),
        b.scope_kind@ != "puzzle"@ && b.scope_kind@ != "round"@ && b.scope_kind@ != "game"@
            ==> scope_rank(b, page) == 0,
{
    reveal_strlit("puzzle");
    reveal_strlit("round");
    reveal_strlit("game");
    assert("puzzle"@.len() == 6 && "round"@.len() == 5 && "game"@.len() == 4);
}

/// A binding counts by its scope unless its package cannot be had; in a draft a package that is to be
/// deleted is had from the one that follows it.
pub proof fn bindings_count_with_their_package(
    packages: Seq<PackageRef>,
    draft: bool,
    b: FrontendBinding,
    page: Page<'_>,
    id: i32,
)
    ensures
        b.package_id is None ==> weight(packages, draft, b, page) == scope_rank(b, page),
        b.package_id is Some && resolved_package(packages, draft, b.package_id->0) is None ==> weight(
            packages,
            draft,
            b,
            page,
        ) == 0,
        b.package_id is Some && resolved_package(packages, draft, b.package_id->0) is Some ==> weight(
            packages,
            draft,
            b,
            page,
        ) == scope_rank(b, page),
        package_at(packages, id) is None ==> resolved_package(packages, draft, id) is None,
        package_at(packages, id) is Some ==> resolved_package(packages, false, id) == Some(id),
        package_at(packages, id) is Some && package_at(packages, id)->0.delete_pending
            ==> resolved_package(packages, true, id) == successor(
            packages,
            package_at(packages, id)->0,
        ),
{
}

/// Features are listed by package and then by feature.
pub proof fn features_are_listed_by_package(list: Seq<(i32, FrontendFeature)>, i: int, j: int)
    requires
        in_order(list),
        0 <= i < j < list.len(),
    ensures
        list[i].0 <= list[j].0,
        list[i].0 == list[j].0 ==> list[i].1.code_of() < list[j].1.code_of(),
        list[i] != list[j],
{
    assert(listed_before(list[i], list[j]));
}

/// A feature is on exactly where some activation names it and its package stands for the one that is
/// asked for.
pub proof fn features_are_on_where_activated(
    packages: Seq<PackageRef>,
    draft: bool,
    activations: Seq<FrontendFeatureActivation>,
    one: FrontendFeatureActivation,
    p: (i32, FrontendFeature),
)
    ensures
        !feature_is_on(packages, draft, Seq::empty(), p),
        feature_is_on(packages, draft, activations.push(one), p) <==> feature_is_on(
            packages,
            draft,
            activations,
            p,
        ) || (one.feature == p.1 && resolved_package(packages, draft, one.package_id) == Some(p.0)),
{
    let all = activations.push(one);
    assert(all[activations.len() as int] == one);
    if feature_is_on(packages, draft, activations, p) {
        let i = choose|i: int|
            0 <= i < activations.len() && (#[trigger] activations[i]).feature == p.1
                && resolved_package(packages, draft, activations[i].package_id) == Some(p.0);
        assert(all[i] == activations[i]);
    }
    if feature_is_on(packages, draft, all, p) {
        let i = choose|i: int|
            0 <= i < all.len() && (#[trigger] all[i]).feature == p.1 && resolved_package(
                packages,
                draft,
                all[i].package_id,
            ) == Some(p.0);
        if i < activations.len() {
            assert(activations[i] == all[i]);
        }
    }
}

} // verus!
