//! What holds of the operations, whatever the records and accounts are.

use crate::aggregation::{
    lemma_score_sum_concat, lemma_score_sum_one, lemma_score_sum_remove, score_sum,
};
use crate::error::ErrorCode;
use crate::instructions::{
    create_player_outcome, create_team_outcome, update_player_score_outcome,
    update_team_score_outcome, CreatePlayer, CreateTeam, UpdatePlayerScore, UpdateTeamScore,
};
use crate::state::{name_fits, PlayerView};
use crate::validator::{
    holds_player, lemma_error_stays, lemma_validated_players_by_account, validated_player,
    validated_players, RawAccount,
};
use vstd::prelude::*;

verus! {

/// Creating a team at an unused address succeeds and gives a team of the
/// signer with the given name and no score. Creating it once more, with the
/// same name and signer, fails with `AlreadyExists` and changes nothing.
pub proof fn law_team_is_created_once(ctx: CreateTeam, name: String)
    requires
        name_fits(name@),
    ensures
        ctx.team is None ==> {
            let (done, after) = create_team_outcome(ctx, name);
            &&& done is Ok
            &&& after.team is Some
            &&& after.team.unwrap().authority == ctx.authority
            &&& after.team.unwrap().name == name
            &&& after.team.unwrap().total_score == 0
            &&& after.team.unwrap()@.well_formed()
        },
        create_team_outcome(create_team_outcome(ctx, name).1, name) == (
            Err::<(), ErrorCode>(ErrorCode::AlreadyExists),
            create_team_outcome(ctx, name).1,
        ),
{
}

/// Creating a player at an unused address succeeds and gives a player of
/// the signer, bound to the team, with the given name and no score.
/// Creating it once more, with the same name and signer, fails with
/// `AlreadyExists` and changes nothing.
pub proof fn law_player_is_created_once(ctx: CreatePlayer, name: String)
    requires
        name_fits(name@),
    ensures
        ctx.player is None ==> {
            let (done, after) = create_player_outcome(ctx, name);
            &&& done is Ok
            &&& after.player is Some
            &&& after.player.unwrap().authority == ctx.authority
            &&& after.player.unwrap().team == ctx.team.key
            &&& after.player.unwrap().name == name
            &&& after.player.unwrap().score == 0
            &&& after.player.unwrap()@.well_formed()
            &&& after.team == ctx.team
        },
        create_player_outcome(create_player_outcome(ctx, name).1, name) == (
            Err::<(), ErrorCode>(ErrorCode::AlreadyExists),
            create_player_outcome(ctx, name).1,
        ),
{
}

/// The player's authority may set the score to any value, lower ones too;
/// anyone else is turned down with `InvalidAuthority`. Whoever calls, the
/// player's team, authority and name stay as they are.
pub proof fn law_score_is_set_by_authority_alone(ctx: UpdatePlayerScore, score: u8)
    ensures
        ({
            let (done, after) = update_player_score_outcome(ctx, score);
            &&& after.player.team == ctx.player.team
            &&& after.player.authority == ctx.player.authority
            &&& after.player.name == ctx.player.name
            &&& after.authority == ctx.authority
            &&& ctx.player.authority@ == ctx.authority@ ==> done is Ok && after.player.score
                == score
            &&& ctx.player.authority@ != ctx.authority@ ==> done == Err::<(), ErrorCode>(
                ErrorCode::InvalidAuthority,
            ) && after == ctx
        }),
{
}

/// An operation that fails leaves its accounts as they were.
pub proof fn law_failure_changes_nothing(
    team: CreateTeam,
    player: CreatePlayer,
    player_score: UpdatePlayerScore,
    team_score: UpdateTeamScore,
    name: String,
    score: u8,
    remaining_accounts: Seq<RawAccount>,
)
    ensures
        create_team_outcome(team, name).0 is Err ==> create_team_outcome(team, name).1 == team,
        create_player_outcome(player, name).0 is Err ==> create_player_outcome(player, name).1
            == player,
        update_player_score_outcome(player_score, score).0 is Err ==> update_player_score_outcome(
            player_score,
            score,
        ).1 == player_score,
        update_team_score_outcome(team_score, remaining_accounts).0 is Err
            ==> update_team_score_outcome(team_score, remaining_accounts).1 == team_score,
{
}

/// Updating a team's score never lowers the total and never touches the
/// team's address, authority or name, nor the signer. Where it succeeds,
/// the total has grown by the sum of the scores of the players that the
/// accounts hold.
pub proof fn law_total_only_grows(ctx: UpdateTeamScore, remaining_accounts: Seq<RawAccount>)
    ensures
        ({
            let (done, after) = update_team_score_outcome(ctx, remaining_accounts);
            &&& after.team.record.total_score >= ctx.team.record.total_score
            &&& after.team.key == ctx.team.key
            &&& after.team.record.authority == ctx.team.record.authority
            &&& after.team.record.name == ctx.team.record.name
            &&& after.authority == ctx.authority
            &&& done is Ok ==> {
                &&& validated_players(remaining_accounts, ctx.authority@, ctx.team.key@) is Ok
                &&& after.team.record.total_score == ctx.team.record.total_score + score_sum(
                    validated_players(remaining_accounts, ctx.authority@, ctx.team.key@).unwrap(),
                )
            }
        }),
{
}

/// Where the signer is the team's authority, and the one account holds a
/// player of that team whose authority is the signer too, the update adds
/// exactly that player's score, as long as the total stays in its range.
pub proof fn law_single_player_adds_its_score(
    ctx: UpdateTeamScore,
    account: RawAccount,
    player: PlayerView,
)
    requires
        ctx.team.record.authority@ == ctx.authority@,
        holds_player(account, player),
        player.authority == ctx.authority@,
        player.team == ctx.team.key@,
        ctx.team.record.total_score + player.score <= u16::MAX,
    ensures
        update_team_score_outcome(ctx, seq![account]).0 is Ok,
        update_team_score_outcome(ctx, seq![account]).1.team.record.total_score
            == ctx.team.record.total_score + player.score,
{
    lemma_one_account(account, ctx.authority@, ctx.team.key@);
    lemma_score_sum_one(player);
}

/// One account that does not pass validation is enough to fail the whole
/// update, wherever it stands in the list: nothing is added, not even the
/// scores of the accounts that do pass.
pub proof fn law_one_bad_account_fails_update(
    ctx: UpdateTeamScore,
    remaining_accounts: Seq<RawAccount>,
    at: int,
)
    requires
        0 <= at < remaining_accounts.len(),
        validated_player(remaining_accounts[at], ctx.authority@, ctx.team.key@) is Err,
    ensures
        update_team_score_outcome(ctx, remaining_accounts).0 is Err,
        update_team_score_outcome(ctx, remaining_accounts).1 == ctx,
{
    lemma_validated_players_by_account(remaining_accounts, ctx.authority@, ctx.team.key@);
}

/// A player of another team fails the whole update with `InvalidTeam`, and
/// nothing changes. This is so where the signer is the team's authority and
/// the player's, and the accounts before the player's all pass.
pub proof fn law_foreign_player_fails_update(
    ctx: UpdateTeamScore,
    remaining_accounts: Seq<RawAccount>,
    at: int,
    player: PlayerView,
)
    requires
        ctx.team.record.authority@ == ctx.authority@,
        0 <= at < remaining_accounts.len(),
        validated_players(remaining_accounts.take(at), ctx.authority@, ctx.team.key@) is Ok,
        holds_player(remaining_accounts[at], player),
        player.authority == ctx.authority@,
        player.team != ctx.team.key@,
    ensures
        update_team_score_outcome(ctx, remaining_accounts) == (
            Err::<(), ErrorCode>(ErrorCode::InvalidTeam),
            ctx,
        ),
{
    lemma_first_failure_decides(remaining_accounts, at, ctx.authority@, ctx.team.key@);
}

/// A player whose authority is not the signer fails the whole update with
/// `InvalidAuthority`, and nothing changes. This is so where the accounts
/// before the player's all pass.
pub proof fn law_unauthorized_player_fails_update(
    ctx: UpdateTeamScore,
    remaining_accounts: Seq<RawAccount>,
    at: int,
    player: PlayerView,
)
    requires
        0 <= at < remaining_accounts.len(),
        validated_players(remaining_accounts.take(at), ctx.authority@, ctx.team.key@) is Ok,
        holds_player(remaining_accounts[at], player),
        player.authority != ctx.authority@,
    ensures
        update_team_score_outcome(ctx, remaining_accounts) == (
            Err::<(), ErrorCode>(ErrorCode::InvalidAuthority),
            ctx,
        ),
{
    lemma_first_failure_decides(remaining_accounts, at, ctx.authority@, ctx.team.key@);
}

/// An account that does not belong to this program, or does not hold a
/// player, fails the whole update with `InvalidAccountData`, and nothing
/// changes. This is so where the signer is the team's authority and the
/// accounts before that one all pass.
pub proof fn law_unreadable_account_fails_update(
    ctx: UpdateTeamScore,
    remaining_accounts: Seq<RawAccount>,
    at: int,
)
    requires
        ctx.team.record.authority@ == ctx.authority@,
        0 <= at < remaining_accounts.len(),
        validated_players(remaining_accounts.take(at), ctx.authority@, ctx.team.key@) is Ok,
        forall|player: PlayerView| !holds_player(remaining_accounts[at], player),
    ensures
        update_team_score_outcome(ctx, remaining_accounts) == (
            Err::<(), ErrorCode>(ErrorCode::InvalidAccountData),
            ctx,
        ),
{
    let account = remaining_accounts[at];
    if account.owner@ == crate::pubkey::ID@ {
        let found = crate::state::parse_player(account.data@);
        if found is Some {
            assert(holds_player(account, found.unwrap()));
        }
    }
    lemma_first_failure_decides(remaining_accounts, at, ctx.authority@, ctx.team.key@);
}

/// Nothing is remembered of an update: the same update made twice adds the
/// player's score twice.
pub proof fn law_update_twice_adds_twice(
    ctx: UpdateTeamScore,
    account: RawAccount,
    player: PlayerView,
)
    requires
        ctx.team.record.authority@ == ctx.authority@,
        holds_player(account, player),
        player.authority == ctx.authority@,
        player.team == ctx.team.key@,
        ctx.team.record.total_score + 2 * player.score <= u16::MAX,
    ensures
        ({
            let (first, once) = update_team_score_outcome(ctx, seq![account]);
            let (second, twice) = update_team_score_outcome(once, seq![account]);
            &&& first is Ok
            &&& second is Ok
            &&& twice.team.record.total_score == ctx.team.record.total_score + 2 * player.score
        }),
{
    lemma_one_account(account, ctx.authority@, ctx.team.key@);
    lemma_score_sum_one(player);
}

/// Nothing is left out of an update: a player that is handed in twice in
/// one update counts twice.
pub proof fn law_duplicate_counts_twice(
    ctx: UpdateTeamScore,
    account: RawAccount,
    player: PlayerView,
)
    requires
        ctx.team.record.authority@ == ctx.authority@,
        holds_player(account, player),
        player.authority == ctx.authority@,
        player.team == ctx.team.key@,
        ctx.team.record.total_score + 2 * player.score <= u16::MAX,
    ensures
        update_team_score_outcome(ctx, seq![account, account]).0 is Ok,
        update_team_score_outcome(ctx, seq![account, account]).1.team.record.total_score
            == ctx.team.record.total_score + 2 * player.score,
{
    let twice = seq![account, account];
    assert(twice.drop_last() =~= seq![account]);
    lemma_one_account(account, ctx.authority@, ctx.team.key@);
    lemma_score_sum_one(player);
    assert(seq![player].push(player) =~= seq![player] + seq![player]);
    lemma_score_sum_concat(seq![player], seq![player]);
}

/// The order of the accounts does not matter to what an update leaves
/// behind, nor to whether it succeeds: two lists that hold the same
/// accounts, each as often in one as in the other, do the same. (Which
/// error a failing update gives depends on the account that comes first.)
pub proof fn law_order_does_not_matter(
    ctx: UpdateTeamScore,
    first: Seq<RawAccount>,
    second: Seq<RawAccount>,
)
    requires
        first.to_multiset() == second.to_multiset(),
    ensures
        update_team_score_outcome(ctx, first).0 is Ok <==> update_team_score_outcome(
            ctx,
            second,
        ).0 is Ok,
        update_team_score_outcome(ctx, first).1 == update_team_score_outcome(ctx, second).1,
{
    let signer = ctx.authority@;
    let team = ctx.team.key@;
    if validated_players(first, signer, team) is Ok {
        lemma_validated_sum_any_order(first, second, signer, team);
    } else if validated_players(second, signer, team) is Ok {
        lemma_validated_sum_any_order(second, first, signer, team);
    }
}

/// Where a list passes, so does the same list in any other order, and the
/// scores of its players add up to the same.
proof fn lemma_validated_sum_any_order(
    first: Seq<RawAccount>,
    second: Seq<RawAccount>,
    signer: Seq<u8>,
    team: Seq<u8>,
)
    requires
        first.to_multiset() == second.to_multiset(),
        validated_players(first, signer, team) is Ok,
    ensures
        validated_players(second, signer, team) is Ok,
        score_sum(validated_players(first, signer, team).unwrap()) == score_sum(
            validated_players(second, signer, team).unwrap(),
        ),
    decreases first.len(),
{
    broadcast use vstd::seq_lib::group_to_multiset_ensures;

    assert(first.len() == first.to_multiset().len());
    assert(second.len() == second.to_multiset().len());
    if first.len() == 0 {
        assert(second =~= Seq::<RawAccount>::empty());
    } else {
        let front = first.drop_last();
        let last = first.last();
        assert(first =~= front.push(last));
        assert(second.to_multiset().count(last) > 0);
        assert(second.contains(last));
        let at = choose|at: int| 0 <= at < second.len() && second[at] == last;
        let others = second.remove(at);
        assert(others.to_multiset() =~= front.to_multiset());
        lemma_validated_sum_any_order(front, others, signer, team);
        lemma_validated_players_by_account(others, signer, team);
        lemma_validated_players_by_account(second, signer, team);
        assert forall|i: int| 0 <= i < second.len() implies (#[trigger] validated_player(
            second[i],
            signer,
            team,
        )) is Ok by {
            if i < at {
                assert(second[i] == others[i]);
            } else if i > at {
                assert(second[i] == others[i - 1]);
            }
        }
        let found = validated_players(second, signer, team).unwrap();
        let kept = validated_players(others, signer, team).unwrap();
        assert forall|i: int| 0 <= i < kept.len() implies found.remove(at)[i] == kept[i] by {
            assert(validated_player(others[i], signer, team) == Ok::<PlayerView, ErrorCode>(
                kept[i],
            ));
            if i < at {
                assert(second[i] == others[i]);
                assert(validated_player(second[i], signer, team) == Ok::<PlayerView, ErrorCode>(
                    found[i],
                ));
            } else {
                assert(second[i + 1] == others[i]);
                assert(validated_player(second[i + 1], signer, team) == Ok::<
                    PlayerView,
                    ErrorCode,
                >(found[i + 1]));
            }
        }
        assert(found.remove(at) =~= kept);
        lemma_score_sum_remove(found, at);
        assert(validated_player(second[at], signer, team) == Ok::<PlayerView, ErrorCode>(
            found[at],
        ));
        let passed = validated_players(front, signer, team).unwrap();
        assert(validated_players(first, signer, team).unwrap() == passed.push(found[at]));
        assert(passed.push(found[at]).drop_last() =~= passed);
    }
}

/// A list of one account passes or fails as that account does.
proof fn lemma_one_account(account: RawAccount, signer: Seq<u8>, team: Seq<u8>)
    ensures
        validated_players(seq![account], signer, team) == match validated_player(
            account,
            signer,
            team,
        ) {
            Ok(player) => Ok::<Seq<PlayerView>, ErrorCode>(seq![player]),
            Err(error) => Err::<Seq<PlayerView>, ErrorCode>(error),
        },
{
    let one = seq![account];
    assert(one.drop_last() =~= Seq::<RawAccount>::empty());
    assert(validated_players(one.drop_last(), signer, team) == Ok::<Seq<PlayerView>, ErrorCode>(
        Seq::empty(),
    ));
    if let Ok(player) = validated_player(account, signer, team) {
        assert(Seq::<PlayerView>::empty().push(player) =~= seq![player]);
    }
}

/// Where the accounts before `at` pass and the one at `at` does not, the
/// list is turned down with that account's error.
proof fn lemma_first_failure_decides(
    accounts: Seq<RawAccount>,
    at: int,
    signer: Seq<u8>,
    team: Seq<u8>,
)
    requires
        0 <= at < accounts.len(),
        validated_players(accounts.take(at), signer, team) is Ok,
        validated_player(accounts[at], signer, team) is Err,
    ensures
        validated_players(accounts, signer, team) == Err::<Seq<PlayerView>, ErrorCode>(
            validated_player(accounts[at], signer, team)->Err_0,
        ),
{
    let upto = accounts.take(at + 1);
    assert(upto.drop_last() =~= accounts.take(at));
    assert(upto.last() == accounts[at]);
    lemma_error_stays(accounts, at + 1, signer, team);
}

} // verus!
