//! Names that a gate expression uses, and the state that it is read against.
use vstd::prelude::*;

verus! {

pub type PuzzleId = u32;

pub type RoundId = u32;

pub type CountSize = usize;

/// A puzzle, by number or by slug.
#[derive(Debug)]
pub enum PuzzleRef {
    Id(PuzzleId),
    Slug(String),
}

/// A round, by number or by slug.
#[derive(Debug)]
pub enum RoundRef {
    Id(RoundId),
    Slug(String),
}

/// What a [`PuzzleRef`] or a [`RoundRef`] says.
pub enum Name {
    Id(u32),
    Slug(Seq<char>),
}

impl View for PuzzleRef {
    type V = Name;

    open spec fn view(&self) -> Name {
        match self {
            PuzzleRef::Id(id) => Name::Id(*id),
            PuzzleRef::Slug(slug) => Name::Slug(slug@),
        }
    }
}

impl View for RoundRef {
    type V = Name;

    open spec fn view(&self) -> Name {
        match self {
            RoundRef::Id(id) => Name::Id(*id),
            RoundRef::Slug(slug) => Name::Slug(slug@),
        }
    }
}

impl Clone for PuzzleRef {
    fn clone(&self) -> (r: Self)
        ensures
            r@ == self@,
    {
        match self {
            PuzzleRef::Id(id) => PuzzleRef::Id(*id),
            PuzzleRef::Slug(slug) => PuzzleRef::Slug(slug.clone()),
        }
    }
}

impl Clone for RoundRef {
    fn clone(&self) -> (r: Self)
        ensures
            r@ == self@,
    {
        match self {
            RoundRef::Id(id) => RoundRef::Id(*id),
            RoundRef::Slug(slug) => RoundRef::Slug(slug.clone()),
        }
    }
}

/// A team's progress as a gate expression sees it.
pub struct Progress {
    pub solved: Set<PuzzleId>,
    pub puzzle_slugs: Map<Seq<char>, PuzzleId>,
    pub round_slugs: Map<Seq<char>, RoundId>,
    pub round_puzzles: Map<RoundId, Seq<PuzzleId>>,
    pub game_started: bool,
    pub triggered: Set<(PuzzleId, Seq<char>)>,
}

/// `Some` of the value that a map holds under a key.
pub open spec fn lookup<K, V>(m: Map<K, V>, k: K) -> Option<V> {
    if m.dom().contains(k) {
        Some(m[k])
    } else {
        None
    }
}

/// Access to a team's progress.
pub trait PuzzleStates {
    /// The progress that the methods report.
    spec fn progress(&self) -> Progress;

    fn is_solved(&self, id: PuzzleId) -> (r: bool)
        ensures
            r == self.progress().solved.contains(id),
    ;

    /// The puzzles that are listed as solved.
    spec fn solved_list(&self) -> Set<PuzzleId>;

    fn solved(&self) -> (r: Vec<PuzzleId>)
        ensures
            forall|id: PuzzleId| r@.contains(id) <==> self.solved_list().contains(id),
    ;

    fn puzzle_slug(&self, slug: &str) -> (r: Option<PuzzleId>)
        ensures
            r == lookup(self.progress().puzzle_slugs, slug@),
    ;

    fn round_slug(&self, slug: &str) -> (r: Option<RoundId>)
        ensures
            r == lookup(self.progress().round_slugs, slug@),
    ;

    fn round_puzzles(&self, id: RoundId) -> (r: Option<Vec<PuzzleId>>)
        ensures
            match r {
                Some(v) => lookup(self.progress().round_puzzles, id) == Some(v@),
                None => lookup(self.progress().round_puzzles, id) is None,
            },
    ;

    fn game_started(&self) -> (r: bool)
        ensures
            r == self.progress().game_started,
    ;

    fn is_triggered(&self, id: PuzzleId, key: &str) -> (r: bool)
        ensures
            r == self.progress().triggered.contains((id, key@)),
    ;
}

/// What is looked up is found exactly where it is kept.
pub proof fn kept_values_are_found<K, V>(m: Map<K, V>, k: K, v: V)
    ensures
        lookup(m, k) is Some <==> m.dom().contains(k),
        lookup(m.insert(k, v), k) == Some(v),
        lookup(m.remove(k), k) is None,
{
}

/// A reference stands for the number or the name that it holds.
pub proof fn references_stand_for_what_they_hold(id: u32, slug: String)
    ensures
        PuzzleRef::Id(id)@ == Name::Id(id),
        PuzzleRef::Slug(slug)@ == Name::Slug(slug@),
        RoundRef::Id(id)@ == Name::Id(id),
        RoundRef::Slug(slug)@ == Name::Slug(slug@),
{
}

} // verus!
