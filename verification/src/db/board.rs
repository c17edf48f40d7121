//! The leaderboard.
use vstd::prelude::*;
use vstd::string::*;

use crate::clock::Timestamp;
use crate::game::judge;
use crate::game::judge::copy_texts;
use crate::kv::KvStore;
use crate::text;
use crate::text::push_decimal;

verus! {

/// How long a snapshot of the leaderboard is kept, in seconds.
pub const SNAPSHOT_TTL_SECONDS: u64 = 120;

/// The number under which the database locks the leaderboards.
pub const LOCK_NAMESPACE: i32 = 737_001;

/// How often a snapshot that somebody else is making is waited for.
pub const SNAPSHOT_TRIES: u32 = 5;

/// How long one wait for a snapshot is, in milliseconds.
pub const SNAPSHOT_WAIT_MILLIS: u64 = 50;

/// How long to wait for a snapshot that somebody else is making, in milliseconds, after some waits
/// that were in vain; nothing once it was waited for often enough.
pub fn wait_for_snapshot(tried: u32) -> (r: Option<u64>)
    ensures
        r == (if tried < 5 {
            Some(50u64)
        } else {
            None
        }),
{
    if tried < SNAPSHOT_TRIES {
        Some(SNAPSHOT_WAIT_MILLIS)
    } else {
        None
    }
}

/// A team on the leaderboard.
#[derive(Debug)]
pub struct LeaderBoardTeamInfo {
    pub rank: usize,
    pub id: i32,
    pub name: String,
    pub bio: String,
    pub finish_at: Option<Timestamp>,
    pub last_solved_at: Option<Timestamp>,
    pub solves: i64,
    pub members: Vec<String>,
}

/// A page of the leaderboard.
#[derive(Debug)]
pub struct LeaderBoardInfo {
    pub data: Vec<LeaderBoardTeamInfo>,
    pub version: i64,
    pub total: usize,
    pub has_more: bool,
    pub reset: bool,
    pub state: &'static str,
    pub locked_at: Option<Timestamp>,
}

/// A team, as it is read for the leaderboard.
#[derive(Debug)]
pub struct LeaderBoardTeamRow {
    pub id: i32,
    pub name: String,
    pub bio: String,
    pub finish_at: Option<Timestamp>,
    pub last_solved_at: Option<Timestamp>,
    pub solves: i64,
}

/// A member of a team, as it is read for the leaderboard.
#[derive(Debug)]
pub struct MemberRow {
    pub team_id: i32,
    pub nickname: String,
}

/// What is told of a team on the leaderboard.
pub struct Standing {
    pub rank: int,
    pub id: i32,
    pub name: Seq<char>,
    pub bio: Seq<char>,
    pub finish_at: Option<Timestamp>,
    pub last_solved_at: Option<Timestamp>,
    pub solves: i64,
    pub members: Seq<Seq<char>>,
}

impl LeaderBoardTeamInfo {
    pub open spec fn standing(self) -> Standing {
        Standing {
            rank: self.rank as int,
            id: self.id,
            name: self.name@,
            bio: self.bio@,
            finish_at: self.finish_at,
            last_solved_at: self.last_solved_at,
            solves: self.solves,
            members: judge::texts_in(self.members@),
        }
    }
}

/// What a list of teams tells.
pub open spec fn standings(teams: Seq<LeaderBoardTeamInfo>) -> Seq<Standing> {
    teams.map_values(|t: LeaderBoardTeamInfo| t.standing())
}

/// The leaderboard at a moment.
#[derive(Debug)]
pub struct LeaderBoardSnapshot {
    pub order: Vec<i32>,
    pub teams: Vec<LeaderBoardTeamInfo>,
    pub locked_at: Option<Timestamp>,
    pub version: i64,
}

fn board_key(kv: &KvStore, game_id: i32, board_type: &str, rest: &str) -> (r: String)
    ensures
        r@ == kv.prefix@ + ("cache:leaderboard:v1:"@ + text::decimal(game_id as int) + ":"@ + board_type@
            + rest@),
{
    let mut name = "cache:leaderboard:v1:".to_owned();
    push_decimal(&mut name, game_id as i64);
    name.append(":");
    name.append(board_type);
    name.append(rest);
    kv.key(&name)
}

/// The key of the latest snapshot.
pub fn latest_key(kv: &KvStore, game_id: i32, board_type: &str) -> (r: String)
    ensures
        r@ == kv.prefix@ + ("cache:leaderboard:v1:"@ + text::decimal(game_id as int) + ":"@ + board_type@
            + ":latest"@),
{
    board_key(kv, game_id, board_type, ":latest")
}

/// The key of the snapshot of a version.
pub fn snapshot_key(kv: &KvStore, game_id: i32, board_type: &str, version: i64) -> (r: String)
    ensures
        r@ == kv.prefix@ + ("cache:leaderboard:v1:"@ + text::decimal(game_id as int) + ":"@ + board_type@
            + (":snapshot:"@ + text::decimal(version as int))),
{
    let mut rest = ":snapshot:".to_owned();
    push_decimal(&mut rest, version);
    board_key(kv, game_id, board_type, &rest)
}

/// The members of a team, in the order of the rows.
pub open spec fn members_of(rows: Seq<MemberRow>, team_id: i32) -> Seq<Seq<char>>
    decreases rows.len(),
{
    if rows.len() == 0 {
        Seq::empty()
    } else if rows.last().team_id == team_id {
        members_of(rows.drop_last(), team_id).push(rows.last().nickname@)
    } else {
        members_of(rows.drop_last(), team_id)
    }
}

fn pick_members(rows: &Vec<MemberRow>, team_id: i32) -> (r: Vec<String>)
    ensures
        judge::texts_in(r@) == members_of(rows@, team_id),
{
    let mut members: Vec<String> = Vec::new();
    let mut i: usize = 0;
    assert(judge::texts_in(members@) =~= members_of(rows@.take(0), team_id));
    while i < rows.len()
        invariant
            i <= rows@.len(),
            judge::texts_in(members@) == members_of(rows@.take(i as int), team_id),
        decreases rows@.len() - i,
    {
        assert(rows@.take(i + 1).drop_last() =~= rows@.take(i as int));
        assert(rows@.take(i + 1).last() == rows@[i as int]);
        if rows[i].team_id == team_id {
            let ghost before = judge::texts_in(members@);
            members.push(rows[i].nickname.clone());
            assert(judge::texts_in(members@) =~= before.push(rows@[i as int].nickname@));
        }
        i += 1;
    }
    assert(rows@.take(i as int) =~= rows@);
    members
}

/// What is told of a team before it has a rank.
pub open spec fn unranked(row: LeaderBoardTeamRow, members: Seq<MemberRow>) -> Standing {
    Standing {
        rank: 0,
        id: row.id,
        name: row.name@,
        bio: row.bio@,
        finish_at: row.finish_at,
        last_solved_at: row.last_solved_at,
        solves: row.solves,
        members: members_of(members, row.id),
    }
}

/// The teams of a leaderboard, each with its members.
pub fn fetch_teams(rows: Vec<LeaderBoardTeamRow>, members: &Vec<MemberRow>) -> (r: Vec<
    LeaderBoardTeamInfo,
>)
    ensures
        r@.len() == rows@.len(),
        forall|i: int|
            0 <= i < rows@.len() ==> (#[trigger] r@[i]).standing() == unranked(rows@[i], members@),
{
    let mut teams: Vec<LeaderBoardTeamInfo> = Vec::new();
    for row in it: rows
        invariant
            it.seq() == rows@,
            teams@.len() == it.index(),
            forall|i: int|
                0 <= i < teams@.len() ==> (#[trigger] teams@[i]).standing() == unranked(
                    rows@[i],
                    members@,
                ),
    {
        let listed = pick_members(members, row.id);
        teams.push(
            LeaderBoardTeamInfo {
                rank: 0,
                id: row.id,
                name: row.name,
                bio: row.bio,
                finish_at: row.finish_at,
                last_solved_at: row.last_solved_at,
                solves: row.solves,
                members: listed,
            },
        );
    }
    teams
}

/// The leaderboard that teams make up, in their order.
pub fn build_snapshot(
    teams: Vec<LeaderBoardTeamInfo>,
    locked_at: Option<Timestamp>,
    version: i64,
) -> (r: LeaderBoardSnapshot)
    ensures
        r.order@ == teams@.map_values(|t: LeaderBoardTeamInfo| t.id),
        r.teams == teams,
        r.locked_at == locked_at,
        r.version == version,
{
    let ghost ids = teams@.map_values(|t: LeaderBoardTeamInfo| t.id);
    let mut order: Vec<i32> = Vec::new();
    let mut i: usize = 0;
    while i < teams.len()
        invariant
            i <= teams@.len(),
            ids == teams@.map_values(|t: LeaderBoardTeamInfo| t.id),
            order@ == ids.take(i as int),
        decreases teams@.len() - i,
    {
        order.push(teams[i].id);
        assert(order@ =~= ids.take(i + 1));
        i += 1;
    }
    assert(ids.take(i as int) =~= ids);
    LeaderBoardSnapshot { order, teams, locked_at, version }
}

/// The last of some teams with an id.
pub open spec fn team_with(teams: Seq<LeaderBoardTeamInfo>, id: i32) -> Option<Standing>
    decreases teams.len(),
{
    if teams.len() == 0 {
        None
    } else if teams.last().id == id {
        Some(teams.last().standing())
    } else {
        team_with(teams.drop_last(), id)
    }
}

/// What is told of the places from one to another, of those whose team is known.
pub open spec fn places(snapshot: LeaderBoardSnapshot, from: int, to: int) -> Seq<Standing>
    decreases to - from,
{
    if from >= to {
        Seq::empty()
    } else {
        let rest = places(snapshot, from, to - 1);
        match team_with(snapshot.teams@, snapshot.order@[to - 1]) {
            Some(team) => rest.push(Standing { rank: to, ..team }),
            None => rest,
        }
    }
}

fn find_team(teams: &Vec<LeaderBoardTeamInfo>, id: i32, rank: usize) -> (r: Option<
    LeaderBoardTeamInfo,
>)
    ensures
        match team_with(teams@, id) {
            Some(team) => r matches Some(t) && t.standing() == (Standing {
                rank: rank as int,
                ..team
            }),
            None => r is None,
        },
{
    let mut i: usize = teams.len();
    assert(teams@.take(i as int) =~= teams@);
    while i > 0
        invariant
            i <= teams@.len(),
            team_with(teams@, id) == team_with(teams@.take(i as int), id),
        decreases i,
    {
        i -= 1;
        assert(teams@.take(i + 1).drop_last() =~= teams@.take(i as int));
        assert(teams@.take(i + 1).last() == teams@[i as int]);
        let team = &teams[i];
        if team.id == id {
            return Some(
                LeaderBoardTeamInfo {
                    rank,
                    id: team.id,
                    name: team.name.clone(),
                    bio: team.bio.clone(),
                    finish_at: team.finish_at,
                    last_solved_at: team.last_solved_at,
                    solves: team.solves,
                    members: copy_texts(&team.members),
                },
            );
        }
    }
    None
}

/// Which snapshot a page is read from first: that of the version which earlier pages were read
/// from, where there were any, or else the latest.
pub fn wanted_version(prev_version: Option<i64>, offset: usize) -> (r: Option<i64>)
    ensures
        r == (if offset > 0 {
            prev_version
        } else {
            None
        }),
{
    if offset > 0 {
        prev_version
    } else {
        None
    }
}

/// Whether a reader must start again from the first page: later pages were asked for, and the
/// snapshot that earlier ones came from is gone.
pub fn must_reset(found_version: bool, offset: usize) -> (r: bool)
    ensures
        r == (!found_version && offset > 0),
{
    !found_version && offset > 0
}

/// Where a page starts.
pub open spec fn page_start(reset: bool, offset: int) -> int {
    if reset {
        0
    } else {
        offset
    }
}

/// Where a page ends.
pub open spec fn page_end(start: int, limit: int, total: int) -> int {
    if start + limit < total {
        start + limit
    } else {
        total
    }
}

/// A page of a leaderboard: nothing where the reader has seen this version already.
pub fn get_info(
    snapshot: &LeaderBoardSnapshot,
    reset: bool,
    prev_version: Option<i64>,
    offset: usize,
    limit: usize,
) -> (r: Option<LeaderBoardInfo>)
    ensures
        r is None <==> offset == 0 && prev_version == Some(snapshot.version),
        r matches Some(info) ==> {
            let start = page_start(reset, offset as int);
            let total = snapshot.order@.len() as int;
            &&& standings(info.data@) == places(
                *snapshot,
                start,
                page_end(start, limit as int, total),
            )
            &&& info.version == snapshot.version
            &&& info.total == total
            &&& info.has_more == (start + limit < total)
            &&& info.reset == reset
            &&& info.state@ == (if snapshot.locked_at is Some {
                "locked"@
            } else {
                "live"@
            })
            &&& info.locked_at == snapshot.locked_at
        },
{
    if offset == 0 {
        if let Some(version) = prev_version {
            if version == snapshot.version {
                return None;
            }
        }
    }
    let start: usize = if reset {
        0
    } else {
        offset
    };
    let total = snapshot.order.len();
    let has_more = start < total && limit < total - start;
    let end: usize = if has_more {
        start + limit
    } else {
        total
    };
    let mut data: Vec<LeaderBoardTeamInfo> = Vec::new();
    let mut i: usize = start;
    assert(standings(data@) =~= places(*snapshot, start as int, start as int));
    if start < end {
        while i < end
            invariant
                start <= i <= end <= total,
                total == snapshot.order@.len(),
                standings(data@) == places(*snapshot, start as int, i as int),
            decreases end - i,
        {
            let ghost before = standings(data@);
            let found = find_team(&snapshot.teams, snapshot.order[i], i + 1);
            if let Some(team) = found {
                data.push(team);
                assert(standings(data@) =~= before.push(team.standing()));
            }
            i += 1;
        }
    }
    assert(end <= start ==> places(*snapshot, start as int, end as int) =~= Seq::empty());
    let state = if snapshot.locked_at.is_some() {
        "locked"
    } else {
        "live"
    };
    Some(
        LeaderBoardInfo {
            data,
            version: snapshot.version,
            total,
            has_more,
            reset,
            state,
            locked_at: snapshot.locked_at,
        },
    )
}

/// Pages of one snapshot that follow each other show together what one page over both would.
pub proof fn pages_join(snapshot: LeaderBoardSnapshot, a: int, b: int, c: int)
    requires
        a <= b <= c,
    ensures
        places(snapshot, a, b) + places(snapshot, b, c) == places(snapshot, a, c),
    decreases c - b,
{
    if b == c {
        assert(places(snapshot, b, c) =~= Seq::empty());
        assert(places(snapshot, a, b) + places(snapshot, b, c) =~= places(snapshot, a, c));
    } else {
        pages_join(snapshot, a, b, c - 1);
        assert(places(snapshot, a, b) + places(snapshot, b, c) =~= places(snapshot, a, c));
    }
}

/// A leaderboard that was made of teams with different ids shows each of them, at its place.
pub proof fn every_team_has_its_place(snapshot: LeaderBoardSnapshot, n: int)
    requires
        snapshot.order@ == snapshot.teams@.map_values(|t: LeaderBoardTeamInfo| t.id),
        crate::ids::distinct(snapshot.order@),
        0 <= n <= snapshot.teams@.len(),
    ensures
        places(snapshot, 0, n).len() == n,
        forall|i: int|
            0 <= i < n ==> #[trigger] places(snapshot, 0, n)[i] == (Standing {
                rank: i + 1,
                ..snapshot.teams@[i].standing()
            }),
    decreases n,
{
    if n > 0 {
        every_team_has_its_place(snapshot, n - 1);
        lemma_team_at(snapshot.teams@, snapshot.order@, n - 1, snapshot.teams@.len() as int);
        assert(snapshot.teams@.take(snapshot.teams@.len() as int) =~= snapshot.teams@);
    }
}

proof fn lemma_team_at(teams: Seq<LeaderBoardTeamInfo>, order: Seq<i32>, k: int, n: int)
    requires
        order == teams.map_values(|t: LeaderBoardTeamInfo| t.id),
        crate::ids::distinct(order),
        0 <= k < n <= teams.len(),
    ensures
        team_with(teams.take(n), order[k]) == Some(teams[k].standing()),
    decreases n,
{
    let part = teams.take(n);
    assert(part.last() == teams[n - 1]);
    assert(part.drop_last() =~= teams.take(n - 1));
    assert(order[n - 1] == teams[n - 1].id);
    assert(order[k] == teams[k].id);
    if k < n - 1 {
        assert(order[k] != order[n - 1]);
        lemma_team_at(teams, order, k, n - 1);
    }
}

/// Members come with their team in the order of the rows, and with no other team.
pub proof fn members_stand_with_their_team(rows: Seq<MemberRow>, row: MemberRow, team_id: i32)
    ensures
        members_of(Seq::empty(), team_id).len() == 0,
        row.team_id == team_id ==> members_of(rows.push(row), team_id) == members_of(
            rows,
            team_id,
        ).push(row.nickname@),
        row.team_id != team_id ==> members_of(rows.push(row), team_id) == members_of(rows, team_id),
{
    assert(rows.push(row).drop_last() =~= rows);
}

/// What is told of a team is what is stored of it, with its members, and without a rank yet.
pub proof fn teams_are_told_as_they_are_stored(row: LeaderBoardTeamRow, members: Seq<MemberRow>)
    ensures
        ({
            let told = unranked(row, members);
            &&& told.id == row.id
            &&& told.name == row.name@
            &&& told.bio == row.bio@
            &&& told.finish_at == row.finish_at
            &&& told.last_solved_at == row.last_solved_at
            &&& told.solves == row.solves
            &&& told.members == members_of(members, row.id)
            &&& told.rank == 0
        }),
{
}

/// Two teams of which the same is told are the same in every point.
pub proof fn standings_tell_all(a: LeaderBoardTeamInfo, b: LeaderBoardTeamInfo)
    requires
        a.standing() == b.standing(),
    ensures
        a.rank == b.rank,
        a.id == b.id,
        a.name@ == b.name@,
        a.bio@ == b.bio@,
        a.finish_at == b.finish_at,
        a.last_solved_at == b.last_solved_at,
        a.solves == b.solves,
        a.members@.len() == b.members@.len(),
        forall|i: int| 0 <= i < a.members@.len() ==> (#[trigger] a.members@[i])@ == b.members@[i]@,
{
    let (x, y) = (judge::texts_in(a.members@), judge::texts_in(b.members@));
    assert(x.len() == a.members@.len() && y.len() == b.members@.len());
    assert forall|i: int| 0 <= i < a.members@.len() implies (#[trigger] a.members@[i])@
        == b.members@[i]@ by {
        assert(x[i] == y[i]);
    }
}

/// What is told of a list is told of each of its teams, in their order.
pub proof fn lists_tell_of_each_team(teams: Seq<LeaderBoardTeamInfo>, i: int)
    requires
        0 <= i < teams.len(),
    ensures
        standings(teams).len() == teams.len(),
        standings(teams)[i].id == teams[i].id,
        standings(teams)[i].rank == teams[i].rank,
        standings(teams)[i].name == teams[i].name@,
        standings(teams)[i].bio == teams[i].bio@,
        standings(teams)[i].solves == teams[i].solves,
        standings(teams)[i].finish_at == teams[i].finish_at,
        standings(teams)[i].last_solved_at == teams[i].last_solved_at,
        standings(teams)[i].members.len() == teams[i].members@.len(),
{
}

/// A page starts where it is asked for, or at the first place where the reader must start again, and
/// holds no more places than asked for and none behind the last.
pub proof fn pages_hold_what_is_asked_for(reset: bool, offset: int, limit: int, total: int)
    requires
        0 <= offset,
        0 <= limit,
        0 <= total,
    ensures
        !reset ==> page_start(reset, offset) == offset,
        reset ==> page_start(reset, offset) == 0,
        page_end(offset, limit, total) <= total,
        page_end(offset, limit, total) <= offset + limit,
        page_end(offset, limit, total) == total || page_end(offset, limit, total) == offset + limit,
{
}

/// A place shows the team whose id stands there, with the place as its rank, and nothing where no
/// team has that id.
pub proof fn places_show_the_team_that_stands_there(snapshot: LeaderBoardSnapshot, at: int)
    requires
        0 <= at < snapshot.order@.len(),
    ensures
        places(snapshot, at, at).len() == 0,
        (forall|i: int|
            0 <= i < snapshot.teams@.len() ==> (#[trigger] snapshot.teams@[i]).id
                != snapshot.order@[at]) ==> places(snapshot, at, at + 1).len() == 0,
        (exists|i: int|
            0 <= i < snapshot.teams@.len() && (#[trigger] snapshot.teams@[i]).id
                == snapshot.order@[at]) ==> places(snapshot, at, at + 1).len() == 1 && places(
            snapshot,
            at,
            at + 1,
        )[0].rank == at + 1 && places(snapshot, at, at + 1)[0].id == snapshot.order@[at],
{
    reveal_with_fuel(places, 2);
    lemma_team_with(snapshot.teams@, snapshot.order@[at]);
}

proof fn lemma_team_with(teams: Seq<LeaderBoardTeamInfo>, id: i32)
    ensures
        team_with(teams, id) is Some <==> exists|i: int|
            0 <= i < teams.len() && (#[trigger] teams[i]).id == id,
        team_with(teams, id) matches Some(team) ==> team.id == id,
    decreases teams.len(),
{
    if teams.len() > 0 {
        let init = teams.drop_last();
        lemma_team_with(init, id);
        assert(teams[teams.len() - 1] == teams.last());
        if exists|i: int| 0 <= i < init.len() && (#[trigger] init[i]).id == id {
            let i = choose|i: int| 0 <= i < init.len() && (#[trigger] init[i]).id == id;
            assert(teams[i] == init[i]);
        }
        if exists|i: int| 0 <= i < teams.len() && (#[trigger] teams[i]).id == id {
            let i = choose|i: int| 0 <= i < teams.len() && (#[trigger] teams[i]).id == id;
            if i < init.len() {
                assert(init[i] == teams[i]);
            }
        }
    }
}

} // verus!
